//! The dictionary that gives each attribute id a name and a declared
//! value type. The textual dictionary-file syntax is a collaborator's
//! concern: this module only holds the definitions and answers lookups
//! by name or by numeric id.

use vstd::prelude::*;

verus! {

/// The declared value type of a dictionary attribute.
#[derive(Clone, Copy, Debug, PartialEq, Eq, Structural)]
pub enum SupportedAttributeTypes {
    /// UTF-8 text.
    AsciiString,
    /// Raw octets, passed through verbatim.
    ByteString,
    /// An unsigned 32-bit number in four big-endian bytes.
    Integer,
    /// A date as an unsigned 32-bit number in four big-endian bytes.
    Date,
    /// An IPv4 address: exactly four bytes.
    IPv4Addr,
    /// An IPv6 address: exactly sixteen bytes.
    IPv6Addr,
    /// An IPv6 prefix: a reserved byte, a prefix length, address bytes.
    IPv6Prefix,
    /// An interface id: exactly eight bytes.
    InterfaceId,
}

/// One attribute definition: numeric id, name, declared value type,
/// and the vendor scope it belongs to, if any.
#[derive(Clone, Debug)]
pub struct AttributeDefinition {
    pub id: u8,
    pub name: String,
    pub code_type: SupportedAttributeTypes,
    pub vendor_id: Option<u32>,
}

impl AttributeDefinition {
    /// The declared value type of this attribute.
    pub fn code_type(&self) -> (result: SupportedAttributeTypes)
        ensures
            result == self.code_type,
    {
        self.code_type
    }
}

/// The first definition carrying this numeric id, if any.
pub open spec fn spec_find_by_id(
    definitions: Seq<AttributeDefinition>,
    id: u8,
) -> Option<AttributeDefinition>
    decreases definitions.len(),
{
    if definitions.len() == 0 {
        None
    } else if definitions[0].id == id {
        Some(definitions[0])
    } else {
        spec_find_by_id(definitions.drop_first(), id)
    }
}

/// The first definition carrying this name, if any.
pub open spec fn spec_find_by_name(
    definitions: Seq<AttributeDefinition>,
    name: Seq<char>,
) -> Option<AttributeDefinition>
    decreases definitions.len(),
{
    if definitions.len() == 0 {
        None
    } else if definitions[0].name@ == name {
        Some(definitions[0])
    } else {
        spec_find_by_name(definitions.drop_first(), name)
    }
}

/// While no definition among the first `k` matches, the search outcome
/// is decided by the remainder of the sequence.
proof fn lemma_find_by_id_skip(definitions: Seq<AttributeDefinition>, id: u8, k: int)
    requires
        0 <= k <= definitions.len(),
        forall|j: int| 0 <= j < k ==> (#[trigger] definitions[j]).id != id,
    ensures
        spec_find_by_id(definitions, id) == spec_find_by_id(definitions.skip(k), id),
    decreases k,
{
    if k > 0 {
        assert(definitions[0].id != id);
        assert(definitions.drop_first().skip(k - 1) =~= definitions.skip(k));
        lemma_find_by_id_skip(definitions.drop_first(), id, k - 1);
    } else {
        assert(definitions.skip(0) =~= definitions);
    }
}

/// While no definition among the first `k` matches, the search outcome
/// is decided by the remainder of the sequence.
proof fn lemma_find_by_name_skip(definitions: Seq<AttributeDefinition>, name: Seq<char>, k: int)
    requires
        0 <= k <= definitions.len(),
        forall|j: int| 0 <= j < k ==> (#[trigger] definitions[j]).name@ != name,
    ensures
        spec_find_by_name(definitions, name) == spec_find_by_name(definitions.skip(k), name),
    decreases k,
{
    if k > 0 {
        assert(definitions[0].name@ != name);
        assert(definitions.drop_first().skip(k - 1) =~= definitions.skip(k));
        lemma_find_by_name_skip(definitions.drop_first(), name, k - 1);
    } else {
        assert(definitions.skip(0) =~= definitions);
    }
}

/// A read-only collection of attribute definitions, looked up by name
/// or by numeric id.
#[derive(Clone, Debug)]
pub struct Dictionary {
    attributes: Vec<AttributeDefinition>,
}

impl View for Dictionary {
    type V = Seq<AttributeDefinition>;

    closed spec fn view(&self) -> Seq<AttributeDefinition> {
        self.attributes@
    }
}

impl Dictionary {
    /// Builds a dictionary from a list of attribute definitions, kept
    /// in the given order.
    pub fn from_attributes(attributes: Vec<AttributeDefinition>) -> (result: Dictionary)
        ensures
            result@ == attributes@,
    {
        Dictionary { attributes }
    }

    /// The first definition carrying this numeric id, if any.
    pub fn attribute_by_id(&self, id: u8) -> (result: Option<&AttributeDefinition>)
        ensures
            (match result {
                Some(definition) => spec_find_by_id(self@, id) == Some(*definition),
                None => spec_find_by_id(self@, id) is None,
            }),
    {
        let mut k: usize = 0;
        while k < self.attributes.len()
            invariant
                k <= self.attributes.len(),
                self@ == self.attributes@,
                forall|j: int| 0 <= j < k ==> (#[trigger] self.attributes@[j]).id != id,
            decreases self.attributes.len() - k,
        {
            if self.attributes[k].id == id {
                proof {
                    lemma_find_by_id_skip(self@, id, k as int);
                    assert(self@.skip(k as int)[0] == self@[k as int]);
                }
                return Some(&self.attributes[k]);
            }
            k = k + 1;
        }
        proof {
            lemma_find_by_id_skip(self@, id, k as int);
            assert(self@.skip(k as int) =~= Seq::<AttributeDefinition>::empty());
        }
        None
    }

    /// The first definition carrying this name, if any.
    pub fn attribute_by_name(&self, name: &str) -> (result: Option<&AttributeDefinition>)
        ensures
            (match result {
                Some(definition) => spec_find_by_name(self@, name@) == Some(*definition),
                None => spec_find_by_name(self@, name@) is None,
            }),
    {
        let wanted: String = name.to_owned();
        let mut k: usize = 0;
        while k < self.attributes.len()
            invariant
                k <= self.attributes.len(),
                self@ == self.attributes@,
                wanted@ == name@,
                forall|j: int| 0 <= j < k ==> (#[trigger] self.attributes@[j]).name@ != name@,
            decreases self.attributes.len() - k,
        {
            if self.attributes[k].name == wanted {
                proof {
                    lemma_find_by_name_skip(self@, name@, k as int);
                    assert(self@.skip(k as int)[0] == self@[k as int]);
                }
                return Some(&self.attributes[k]);
            }
            k = k + 1;
        }
        proof {
            lemma_find_by_name_skip(self@, name@, k as int);
            assert(self@.skip(k as int) =~= Seq::<AttributeDefinition>::empty());
        }
        None
    }
}

} // verus!
