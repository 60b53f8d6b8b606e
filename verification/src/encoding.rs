//! Probe encodings: building render requests for probe sources and
//! decoding what the probes leaked.

pub mod gzip;
pub mod probe;

use vstd::prelude::*;

verus! {

/// The probe program's template: the judge's language id and the
/// template text an outside renderer fills in.
#[derive(Debug)]
pub struct Template {
    pub language: String,
    pub content: String,
}

impl Clone for Template {
    fn clone(&self) -> (r: Self)
        ensures
            r == *self,
    {
        Template { language: self.language.clone(), content: self.content.clone() }
    }
}

} // verus!
