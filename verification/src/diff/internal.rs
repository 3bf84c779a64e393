use vstd::prelude::*;

verus! {

/// What can be derived for a type.
#[derive(Clone, Copy, Debug, PartialEq, Eq, Structural)]
pub enum Derive {
    Diff,
}

/// The shape of a struct or of a variant of an enum.
#[derive(Clone, Copy, Debug, PartialEq, Eq, Structural)]
pub enum Style {
    /// Named fields.
    Struct,
    /// Several unnamed fields.
    Tuple,
    /// One unnamed field.
    Newtype,
    /// No fields.
    Unit,
}

/// How the variants of an enum are told apart.
#[derive(Clone, Copy, Debug, PartialEq, Eq, Structural)]
pub enum TagType {
    /// By the name of the variant.
    External,
    /// By their contents alone.
    Untagged,
}

impl TagType {
    /// `Untagged` where `untagged` is set, `External` otherwise.
    pub fn new(untagged: bool) -> (tag: Self)
        ensures
            untagged ==> tag == TagType::Untagged,
            !untagged ==> tag == TagType::External,
    {
        if untagged {
            TagType::Untagged
        } else {
            TagType::External
        }
    }
}

/// A word that an attribute is recognised by.
#[derive(Clone, Copy, Debug, PartialEq, Eq)]
pub struct Symbol(pub &'static str);

impl Symbol {
    /// The word.
    pub fn as_str(&self) -> (word: &'static str)
        ensures
            word@ == self.0@,
    {
        self.0
    }
}

/// The names under which an item is compared and merged.
#[derive(Debug)]
pub struct Name {
    diff_name: String,
    merge_name: String,
}

impl Name {
    /// The name under which the item is compared.
    pub closed spec fn spec_diff_name(&self) -> Seq<char> {
        self.diff_name@
    }

    /// The name under which the item is merged.
    pub closed spec fn spec_merge_name(&self) -> Seq<char> {
        self.merge_name@
    }

    /// The names of an item called `name`: each is the name that an
    /// attribute gave it, or `name` where no attribute did.
    pub fn from_attrs(name: String, diff_name: Option<String>, merge_name: Option<String>) -> (out:
        Self)
        ensures
            out.spec_diff_name() == match diff_name {
                Some(given) => given@,
                None => name@,
            },
            out.spec_merge_name() == match merge_name {
                Some(given) => given@,
                None => name@,
            },
    {
        let diff_name = match diff_name {
            Some(given) => given,
            None => name.clone(),
        };
        let merge_name = match merge_name {
            Some(given) => given,
            None => name,
        };
        Name { diff_name, merge_name }
    }

    /// The name under which the item is compared.
    pub fn diff_name(&self) -> (name: String)
        ensures
            name@ == self.spec_diff_name(),
    {
        self.diff_name.clone()
    }

    /// The name under which the item is merged.
    pub fn merge_name(&self) -> (name: String)
        ensures
            name@ == self.spec_merge_name(),
    {
        self.merge_name.clone()
    }
}

} // verus!
