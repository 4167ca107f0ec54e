//! The names under which types, media types and format keys are printed for
//! debugging.
//!
//! The numbers have names in a registry that this crate does not hold: the
//! caller looks the name up and hands it over, or `None` where the registry
//! has none. What is made of the name is decided here.

use convert_case::{Case, Casing};
use vstd::prelude::*;
use vstd::string::{StrSliceExecFns, StringExecFns};

use super::SpaTypes;

verus! {

/// The number of the types that PipeWire itself adds to the registry.
pub const SPA_TYPE_VENDOR_PIPEWIRE: u32 = 0x0200_0000;

/// The number of the types that others add to the registry.
pub const SPA_TYPE_VENDOR_OTHER: u32 = 0x7f00_0000;

/// `text` with every occurrence of `from` replaced by `to`. The occurrences
/// are looked for from the left, and none begins inside another. Where
/// `from` is empty, nothing is replaced.
pub open spec fn spec_replaced(text: Seq<char>, from: Seq<char>, to: Seq<char>) -> Seq<char>
    decreases text.len(),
{
    if from.len() == 0 || text.len() < from.len() {
        text
    } else if text.take(from.len() as int) == from {
        to + spec_replaced(text.skip(from.len() as int), from, to)
    } else {
        seq![text[0]] + spec_replaced(text.skip(1), from, to)
    }
}

/// What `to_case` of the crate `convert_case` returns for `text` and Pascal
/// case.
pub uninterp spec fn spec_pascal(text: Seq<char>) -> Seq<char>;

/// Whether `from` stands in `text` at `at`.
fn stands_at(text: &str, at: usize, from: &str) -> (r: bool)
    requires
        at + from@.len() <= text@.len(),
    ensures
        r <==> text@.subrange(at as int, at + from@.len()) == from@,
{
    let len = text.unicode_len();
    let count = from.unicode_len();
    let mut i: usize = 0;
    while i < count
        invariant
            len == text@.len(),
            count == from@.len(),
            at + count <= text@.len(),
            i <= count,
            forall|j: int| 0 <= j < i ==> text@[at + j] == from@[j],
        decreases count - i,
    {
        if text.get_char(at + i) != from.get_char(i) {
            assert(text@.subrange(at as int, at + from@.len())[i as int] != from@[i as int]);
            return false;
        }
        i += 1;
    }
    assert(text@.subrange(at as int, at + from@.len()) =~= from@);
    true
}

/// `text` with every occurrence of `from` replaced by `to`; see
/// [`spec_replaced`].
pub fn replaced(text: &str, from: &str, to: &str) -> (r: String)
    ensures
        r@ == spec_replaced(text@, from@, to@),
{
    let len = text.unicode_len();
    let count = from.unicode_len();
    if count == 0 {
        return String::from_str(text);
    }
    let mut out = String::new();
    let mut i: usize = 0;
    proof {
        assert(text@.skip(0) =~= text@);
        assert(out@ + spec_replaced(text@, from@, to@) =~= spec_replaced(text@, from@, to@));
    }
    while i < len
        invariant
            len == text@.len(),
            count == from@.len(),
            count > 0,
            i <= len,
            out@ + spec_replaced(text@.skip(i as int), from@, to@) == spec_replaced(
                text@,
                from@,
                to@,
            ),
        decreases len - i,
    {
        let ghost rest = text@.skip(i as int);
        let ghost before = out@;
        if count <= len - i && stands_at(text, i, from) {
            out.append(to);
            proof {
                assert(rest.take(count as int) =~= text@.subrange(i as int, i + count));
                assert(rest.skip(count as int) =~= text@.skip(i + count));
                assert(out@ + spec_replaced(text@.skip(i + count), from@, to@) =~= before + (to@
                    + spec_replaced(rest.skip(count as int), from@, to@)));
            }
            i += count;
        } else {
            out.append(text.substring_char(i, i + 1));
            proof {
                assert(text@.subrange(i as int, i + 1) =~= seq![rest[0]]);
                assert(rest.skip(1) =~= text@.skip(i + 1));
                if count <= len - i {
                    assert(rest.take(count as int) =~= text@.subrange(i as int, i + count));
                } else {
                    assert(spec_replaced(rest.skip(1), from@, to@) == rest.skip(1));
                    assert(rest =~= seq![rest[0]] + rest.skip(1));
                }
                assert(out@ + spec_replaced(text@.skip(i + 1), from@, to@) =~= before + (
                seq![rest[0]] + spec_replaced(rest.skip(1), from@, to@)));
            }
            i += 1;
        }
    }
    proof {
        assert(spec_replaced(text@.skip(len as int), from@, to@) =~= Seq::<char>::empty());
        assert(out@ + Seq::<char>::empty() =~= out@);
    }
    out
}

/// `text` in Pascal case: its words, each with a capital first letter, one
/// after the other.
///
/// Calls `Casing::to_case` of the crate `convert_case` with `Case::Pascal`,
/// which splits the text into words, changes the case of each and joins
/// them. The contract names the result and says no more about it than that
/// it depends on the text alone.
#[verifier::external_body]
pub(crate) fn pascal(text: &str) -> (r: String)
    ensures
        r@ == spec_pascal(text@),
{
    text.to_case(Case::Pascal)
}

/// The name of a type in the registry, without what the names of a kind
/// have in common, as words with a space between them.
pub open spec fn spec_type_words(name: Seq<char>) -> Seq<char> {
    let pointers = spec_replaced(name, "Spa:Pointer"@, "Pointer"@);
    let events = spec_replaced(pointers, "Spa:Pod:Object:Event"@, "Event"@);
    let commands = spec_replaced(events, "Spa:Pod:Object:Command"@, "Command"@);
    let objects = spec_replaced(commands, "Spa:Pod:Object"@, "Object"@);
    let pods = spec_replaced(objects, "Spa:Pod:"@, ""@);
    let plain = spec_replaced(pods, "Spa:"@, ""@);
    spec_replaced(plain, ":"@, " "@)
}

/// What is printed for something that is known by `name`, or by none:
/// `unknown` where it has no name, and otherwise the name behind `owner`,
/// the name of its type, and `::`.
pub open spec fn spec_debug_name(
    owner: Seq<char>,
    unknown: Seq<char>,
    name: Option<Seq<char>>,
) -> Seq<char> {
    match name {
        None => unknown,
        Some(name) => owner + "::"@ + name,
    }
}

/// What is printed for a type: the two vendor types have fixed names, and
/// every other type the name that is made of its name in the registry.
pub open spec fn spec_type_debug_name(raw: u32, registered: Option<Seq<char>>) -> Seq<char> {
    if raw == SPA_TYPE_VENDOR_PIPEWIRE {
        "SpaTypes::VendorPipeWire"@
    } else if raw == SPA_TYPE_VENDOR_OTHER {
        "SpaTypes::VendorOther"@
    } else {
        spec_debug_name(
            "SpaTypes"@,
            "Unknown"@,
            match registered {
                None => None,
                Some(name) => Some(spec_pascal(spec_type_words(name))),
            },
        )
    }
}

/// What is printed for something that is known by `name` or by none; see
/// [`spec_debug_name`].
pub fn debug_name(owner: &str, unknown: &str, name: Option<&str>) -> (r: String)
    ensures
        r@ == spec_debug_name(
            owner@,
            unknown@,
            match name {
                None => None,
                Some(name) => Some(name@),
            },
        ),
{
    match name {
        None => String::from_str(unknown),
        Some(name) => String::from_str(owner).concat("::").concat(name),
    }
}

/// The name of a type in the registry as words; see [`spec_type_words`].
pub fn type_words(name: &str) -> (r: String)
    ensures
        r@ == spec_type_words(name@),
{
    let pointers = replaced(name, "Spa:Pointer", "Pointer");
    let events = replaced(pointers.as_str(), "Spa:Pod:Object:Event", "Event");
    let commands = replaced(events.as_str(), "Spa:Pod:Object:Command", "Command");
    let objects = replaced(commands.as_str(), "Spa:Pod:Object", "Object");
    let pods = replaced(objects.as_str(), "Spa:Pod:", "");
    let plain = replaced(pods.as_str(), "Spa:", "");
    replaced(plain.as_str(), ":", " ")
}

impl SpaTypes {
    /// The name under which this type is printed for debugging, given the
    /// name that the registry has for it.
    pub fn debug_name(&self, registered: Option<&str>) -> (r: String)
        ensures
            r@ == spec_type_debug_name(
                self.0,
                match registered {
                    None => None,
                    Some(name) => Some(name@),
                },
            ),
    {
        if self.0 == SPA_TYPE_VENDOR_PIPEWIRE {
            String::from_str("SpaTypes::VendorPipeWire")
        } else if self.0 == SPA_TYPE_VENDOR_OTHER {
            String::from_str("SpaTypes::VendorOther")
        } else {
            match registered {
                None => debug_name("SpaTypes", "Unknown", None),
                Some(name) => {
                    let words = type_words(name);
                    let converted = pascal(words.as_str());
                    debug_name("SpaTypes", "Unknown", Some(converted.as_str()))
                },
            }
        }
    }
}

} // verus!
