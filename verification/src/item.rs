//! The displayable credential record and its field capabilities.
use vstd::prelude::*;

verus! {

/// Spec-level model of a [`Field`]: the `Other` name as a character sequence.
pub enum FieldV {
    Username,
    Password,
    Totp,
    Other(Seq<char>),
}

/// A named retrievable attribute of an item: one of the closed capability
/// tags, or a backend-specific extension carrying the field's name.
#[derive(Clone, Debug)]
pub enum Field {
    Username,
    Password,
    Totp,
    Other(String),
}

impl View for Field {
    type V = FieldV;

    open spec fn view(&self) -> FieldV {
        match self {
            Field::Username => FieldV::Username,
            Field::Password => FieldV::Password,
            Field::Totp => FieldV::Totp,
            Field::Other(name) => FieldV::Other(name@),
        }
    }
}

impl DeepView for Field {
    type V = FieldV;

    open spec fn deep_view(&self) -> FieldV {
        self.view()
    }
}

impl PartialEq for Field {
    fn eq(&self, other: &Field) -> (r: bool) {
        match (self, other) {
            (Field::Username, Field::Username) => true,
            (Field::Password, Field::Password) => true,
            (Field::Totp, Field::Totp) => true,
            (Field::Other(a), Field::Other(b)) => *a == *b,
            _ => false,
        }
    }
}

impl vstd::std_specs::cmp::PartialEqSpecImpl for Field {
    open spec fn obeys_eq_spec() -> bool {
        true
    }

    open spec fn eq_spec(&self, other: &Field) -> bool {
        self@ == other@
    }
}

impl Eq for Field {}

/// Spec-level model of an [`Item`].
pub struct ItemV {
    pub id: Seq<char>,
    pub title: Seq<char>,
    pub fields: Seq<FieldV>,
}

/// One displayable credential record: an opaque backend identifier, a
/// human-readable title, and the set of field capabilities confirmed to be
/// present at listing time.
#[derive(Clone, Debug)]
pub struct Item {
    pub id: String,
    pub title: String,
    pub fields: Vec<Field>,
}

impl View for Item {
    type V = ItemV;

    open spec fn view(&self) -> ItemV {
        ItemV { id: self.id@, title: self.title@, fields: self.fields.deep_view() }
    }
}

impl DeepView for Item {
    type V = ItemV;

    open spec fn deep_view(&self) -> ItemV {
        self.view()
    }
}

impl PartialEq for Item {
    fn eq(&self, other: &Item) -> (r: bool) {
        if !(self.id == other.id && self.title == other.title) {
            proof {
                assert(self@.id != other@.id || self@.title != other@.title);
                assert(self@ != other@);
            }
            return false;
        }
        if self.fields.len() != other.fields.len() {
            proof {
                assert(self@.fields.len() != other@.fields.len());
                assert(self@ != other@);
            }
            return false;
        }
        let n = self.fields.len();
        let mut i: usize = 0;
        while i < n
            invariant
                n == self.fields.len() == other.fields.len(),
                i <= n,
                forall|k: int| 0 <= k < i ==> self.fields@[k]@ == other.fields@[k]@,
            decreases n - i,
        {
            if !(self.fields[i] == other.fields[i]) {
                proof {
                    assert(self@.fields[i as int] != other@.fields[i as int]);
                    assert(self@ != other@);
                }
                return false;
            }
            i += 1;
        }
        proof {
            assert(self.fields.deep_view() =~= other.fields.deep_view());
        }
        true
    }
}

impl vstd::std_specs::cmp::PartialEqSpecImpl for Item {
    open spec fn obeys_eq_spec() -> bool {
        true
    }

    open spec fn eq_spec(&self, other: &Item) -> bool {
        self@ == other@
    }
}

impl Eq for Item {}

/// A provider-specific operation surfaced to the interactive layer.
#[derive(Clone, Copy, Debug, PartialEq, Eq, Structural)]
pub enum Action {
    Sync,
    Lock,
}

/// Whether a spec-level field is a member of a field sequence; capability
/// checks and the listing invariant are stated over this.
pub open spec fn spec_has_field(fields: Seq<FieldV>, field: FieldV) -> bool {
    exists|k: int| 0 <= k < fields.len() && fields[k] == field
}

impl Item {
    /// Whether `field` is among this item's declared capabilities.
    pub fn has_field(&self, field: &Field) -> (r: bool)
        ensures
            r == spec_has_field(self@.fields, field@),
    {
        let n = self.fields.len();
        let mut i: usize = 0;
        while i < n
            invariant
                n == self.fields.len(),
                i <= n,
                forall|k: int| 0 <= k < i ==> self.fields@[k]@ != field@,
            decreases n - i,
        {
            if self.fields[i] == *field {
                assert(self.fields.deep_view()[i as int] == field@);
                return true;
            }
            i += 1;
        }
        false
    }
}

} // verus!
