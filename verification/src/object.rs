use vstd::prelude::*;
use vstd::string::StringExecFns;

verus! {

/// A value held by a report as context or attachment, described by what the
/// formatting logic reads of it: an identifier of its type, the name of its
/// type, and the text that its own `Display` and `Debug` implementations
/// produce.
#[derive(Debug)]
pub struct Object {
    /// Identifier of the value's type; equal identifiers mean equal types.
    pub type_id: u64,
    /// The name of the value's type.
    pub type_label: String,
    /// The text of the value's own `Display` implementation.
    pub display: String,
    /// The text of the value's own `Debug` implementation.
    pub debug: String,
}

impl Clone for Object {
    fn clone(&self) -> (res: Self)
        ensures
            res == *self,
    {
        Object {
            type_id: self.type_id,
            type_label: self.type_label.clone(),
            display: self.display.clone(),
            debug: self.debug.clone(),
        }
    }
}

impl Object {
    /// Describes a value by its type and the text of its own formatting.
    pub fn new(type_id: u64, type_label: String, display: String, debug: String) -> (res: Self)
        ensures
            res.type_id == type_id,
            res.type_label == type_label,
            res.display == display,
            res.debug == debug,
    {
        Object { type_id, type_label, display, debug }
    }
}

/// The text `prefix` + `middle` + `suffix`.
pub fn concat3(prefix: &str, middle: &str, suffix: &str) -> (res: String)
    ensures
        res@ == prefix@ + middle@ + suffix@,
{
    let mut s = String::from_str(prefix);
    s.append(middle);
    s.append(suffix);
    s
}

} // verus!
