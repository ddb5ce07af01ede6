use vstd::prelude::*;
use std::fmt::Debug;
use vstd::std_specs::cmp::PartialEqSpec;
use vstd::std_specs::convert::{FromSpecImpl, IntoSpec};
use crate::util::text::{append_decimal, decimal_text};

verus! {

/// The `{:?}` text of a value.
#[verifier::external_body]
fn debug_text<T: Debug + ?Sized>(value: &T) -> String {
    format!("{:?}", value)
}

/// Texts joined with ", " between them.
pub open spec fn comma_joined(parts: Seq<Seq<char>>) -> Seq<char>
    decreases parts.len(),
{
    if parts.len() == 0 {
        seq![]
    } else if parts.len() == 1 {
        parts[0]
    } else {
        comma_joined(parts.drop_last()) + seq![',', ' '] + parts.last()
    }
}

/// Texts in square brackets, separated by ", ".
pub open spec fn bracketed_list(parts: Seq<Seq<char>>) -> Seq<char> {
    seq!['['] + comma_joined(parts) + seq![']']
}

/// Items shown as a list: `[a, b, c]`, each item as `{:?}` shows it.
pub struct Pretty<'a, T: 'a>(pub &'a [T]);

impl<'a, T: Debug> Pretty<'a, T> {
    /// The items as a list in square brackets, separated by ", ", one text per item.
    pub fn to_string(&self) -> (text: String)
        ensures
            exists|parts: Seq<Seq<char>>|
                parts.len() == self.0@.len() && text@ == bracketed_list(parts),
    {
        let mut text = String::from_str("[");
        let ghost mut parts: Seq<Seq<char>> = seq![];
        let mut i: usize = 0;
        proof {
            reveal_strlit("[");
        }
        while i < self.0.len()
            invariant
                i <= self.0@.len(),
                parts.len() == i,
                text@ == seq!['['] + comma_joined(parts),
            decreases self.0@.len() - i,
        {
            if i != 0 {
                text.append(", ");
                proof {
                    reveal_strlit(", ");
                }
            }
            let part = debug_text(&self.0[i]);
            text.append(part.as_str());
            proof {
                let old_parts = parts;
                parts = parts.push(part@);
                assert(parts.drop_last() =~= old_parts);
                if i == 0 {
                    assert(comma_joined(parts) == part@);
                }
            }
            i += 1;
        }
        text.append("]");
        proof {
            reveal_strlit("]");
        }
        text
    }
}

/// Whether `actual` starts with `items`, element by element as `==` compares them.
pub open spec fn starts_with_items<T: PartialEq>(actual: Seq<T>, items: Seq<T>) -> bool {
    &&& actual.len() >= items.len()
    &&& forall|i: int| 0 <= i < items.len() ==> #[trigger] actual[i].eq_spec(&items[i])
}

/// The message for data too short to start with the items: the data as a list, then the
/// number of items.
pub open spec fn too_short_message(parts: Seq<Seq<char>>, len: nat) -> Seq<char> {
    bracketed_list(parts) + " isn't at least "@ + decimal_text(len) + " long"@
}

/// The message for data that differs from the items: the data as a list, the item that was
/// not found, and its index.
pub open spec fn mismatch_message(parts: Seq<Seq<char>>, item: Seq<char>, pos: nat) -> Seq<char> {
    bracketed_list(parts) + " does not contain "@ + item + " at index "@ + decimal_text(pos)
}

/// Matches data that starts with the given items.
#[derive(Clone)]
pub struct StartsWith<T> {
    pub items: Vec<T>,
}

impl<T> StartsWith<T> {
    /// A matcher for data starting with `items`.
    pub fn new(items: Vec<T>) -> (matcher: Self)
        ensures
            matcher.items@ == items@,
    {
        Self { items }
    }
}

impl<T> From<Vec<T>> for StartsWith<T> {
    fn from(items: Vec<T>) -> (matcher: StartsWith<T>) {
        StartsWith { items }
    }
}

impl<T> FromSpecImpl<Vec<T>> for StartsWith<T> {
    open spec fn obeys_from_spec() -> bool {
        true
    }

    open spec fn from_spec(items: Vec<T>) -> StartsWith<T> {
        StartsWith { items }
    }
}

impl<T> From<T> for StartsWith<T> {
    fn from(item: T) -> (matcher: StartsWith<T>)
        ensures
            matcher.items@ == seq![item],
    {
        let mut items: Vec<T> = Vec::new();
        items.push(item);
        StartsWith::new(items)
    }
}

/// A vector of one item has no form in specifications, so `from` states its result itself.
impl<T> FromSpecImpl<T> for StartsWith<T> {
    open spec fn obeys_from_spec() -> bool {
        false
    }

    open spec fn from_spec(item: T) -> StartsWith<T> {
        arbitrary()
    }
}

impl<T: Debug + PartialEq> StartsWith<T> {
    /// "starting with" and the items as a list.
    pub fn to_string(&self) -> (text: String)
        ensures
            exists|parts: Seq<Seq<char>>|
                parts.len() == self.items@.len() && text@ == "starting with "@ + bracketed_list(
                    parts,
                ),
    {
        let mut text = String::from_str("starting with ");
        let list = Pretty(self.items.as_slice()).to_string();
        text.append(list.as_str());
        text
    }

    /// Whether `actual` starts with the items: `Ok`, or `Err` with a message saying why not.
    /// Data shorter than the items is refused as too short; otherwise the message names the
    /// first index at which the data differs from the items.
    pub fn matches(&self, actual: &[T]) -> (result: Result<(), String>)
        ensures
            T::obeys_eq_spec() ==> (result is Ok <==> starts_with_items(actual@, self.items@)),
            actual@.len() < self.items@.len() ==> (result matches Err(message) && exists|
                parts: Seq<Seq<char>>,
            |
                #![trigger too_short_message(parts, self.items@.len())]
                parts.len() == actual@.len() && message@ == too_short_message(
                    parts,
                    self.items@.len(),
                )),
            actual@.len() >= self.items@.len() ==> (result matches Err(message) ==> exists|
                parts: Seq<Seq<char>>,
                item: Seq<char>,
                pos: nat,
            |
                #![trigger mismatch_message(parts, item, pos)]
                {
                    &&& parts.len() == actual@.len()
                    &&& pos < self.items@.len()
                    &&& message@ == mismatch_message(parts, item, pos)
                    &&& T::obeys_eq_spec() ==> !actual@[pos as int].eq_spec(&self.items@[pos as int])
                    &&& T::obeys_eq_spec() ==> forall|i: int|
                        0 <= i < pos ==> #[trigger] actual@[i].eq_spec(&self.items@[i])
                }),
    {
        proof {
            reveal_strlit(" isn't at least ");
            reveal_strlit(" long");
            reveal_strlit(" does not contain ");
            reveal_strlit(" at index ");
        }
        if actual.len() < self.items.len() {
            let mut message = Pretty(actual).to_string();
            let ghost parts = choose|parts: Seq<Seq<char>>|
                parts.len() == actual@.len() && message@ == bracketed_list(parts);
            message.append(" isn't at least ");
            append_decimal(&mut message, self.items.len());
            message.append(" long");
            assert(message@ =~= too_short_message(parts, self.items@.len()));
            return Err(message);
        }
        let mut pos: usize = 0;
        while pos < self.items.len()
            invariant
                pos <= self.items@.len() <= actual@.len(),
                T::obeys_eq_spec() ==> forall|i: int|
                    0 <= i < pos ==> #[trigger] actual@[i].eq_spec(&self.items@[i]),
            decreases self.items@.len() - pos,
        {
            if actual[pos] != self.items[pos] {
                let mut message = Pretty(actual).to_string();
                let ghost parts = choose|parts: Seq<Seq<char>>|
                    parts.len() == actual@.len() && message@ == bracketed_list(parts);
                message.append(" does not contain ");
                let item = debug_text(&self.items[pos]);
                message.append(item.as_str());
                message.append(" at index ");
                append_decimal(&mut message, pos);
                assert(message@ =~= mismatch_message(parts, item@, pos as nat));
                return Err(message);
            }
            pos += 1;
        }
        Ok(())
    }
}

/// A matcher for data starting with the given item or items.
pub fn starts_with<T, I: Into<StartsWith<T>>>(item: I) -> (matcher: StartsWith<T>)
    ensures
        I::obeys_into_spec() ==> matcher == item.into_spec(),
{
    item.into()
}

} // verus!
