//! Naming traits shared by the musical types.

use vstd::prelude::*;

verus! {

/// Something whose name is a fixed text.
pub trait HasStaticName {
    /// The name, as a sequence of characters.
    spec fn static_name_spec(&self) -> Seq<char>;

    /// Returns the name.
    fn static_name(&self) -> (s: &'static str)
        ensures
            s@ == self.static_name_spec(),
    ;
}

/// Something whose name is put together when it is asked for.
pub trait HasName {
    /// The name, as a sequence of characters.
    spec fn name_spec(&self) -> Seq<char>;

    /// Returns the name.
    fn name(&self) -> (s: String)
        ensures
            s@ == self.name_spec(),
    ;
}

/// Something that can be described in plain words.
pub trait HasDescription {
    /// The description, as a sequence of characters.
    spec fn description_spec(&self) -> Seq<char>;

    /// Returns the description.
    fn description(&self) -> (s: &'static str)
        ensures
            s@ == self.description_spec(),
    ;
}

} // verus!
