//! The fields of an HTTP message, and changes to them.
use vstd::prelude::*;
use vstd::utf8::encode_utf8;
use crate::text::{chars_of, digit_char, digits, joined, lower};

verus! {

/// The fields of a message: under each name, in lower case, the bytes of its
/// values in order.
pub type Fields = Map<Seq<char>, Seq<Seq<u8>>>;

/// No fields at all.
pub open spec fn no_fields() -> Fields {
    Map::empty()
}

/// Whether a message has just so many names.
pub open spec fn has_names(fields: Fields, n: nat) -> bool {
    fields.dom().finite() && fields.dom().len() == n
}

/// How many names a message may have so that there is surely room for one more.
pub const MOST_NAMES: usize = 4096;

/// Whether a message surely has room for so many names more.
pub open spec fn few_names(fields: Fields, more: nat) -> bool {
    fields.dom().finite() && fields.dom().len() + more <= MOST_NAMES
}

/// Whether a character may stand in the name of a field.
pub open spec fn name_char(c: char) -> bool {
    ||| 'a' <= c <= 'z'
    ||| 'A' <= c <= 'Z'
    ||| '0' <= c <= '9'
    ||| c == '!' || c == '#' || c == '$' || c == '%' || c == '&' || c == '\'' || c == '*'
    ||| c == '+' || c == '-' || c == '.' || c == '^' || c == '_' || c == '`' || c == '|' || c == '~'
}

/// Whether a text can be the name of a field.
pub open spec fn field_name(name: Seq<char>) -> bool {
    0 < name.len() <= 0xffff && forall|i: int| 0 <= i < name.len() ==> name_char(#[trigger] name[i])
}

/// Whether a character may stand in the value of a field: any but control
/// characters, and the tab.
pub open spec fn value_char(c: char) -> bool {
    c == '\t' || (' ' <= c && c != '\u{7f}')
}

/// Whether a text can be the value of a field.
pub open spec fn field_value(value: Seq<char>) -> bool {
    forall|i: int| 0 <= i < value.len() ==> value_char(#[trigger] value[i])
}

fn is_name_char(c: char) -> (r: bool)
    ensures
        r == name_char(c),
{
    ('a' <= c && c <= 'z') || ('A' <= c && c <= 'Z') || ('0' <= c && c <= '9') || c == '!' || c
        == '#' || c == '$' || c == '%' || c == '&' || c == '\'' || c == '*' || c == '+' || c == '-'
        || c == '.' || c == '^' || c == '_' || c == '`' || c == '|' || c == '~'
}

/// Whether a text can be the name of a field.
pub fn is_field_name(name: &str) -> (r: bool)
    ensures
        r == field_name(name@),
{
    let cs = chars_of(name);
    let n: usize = cs.len();
    if n == 0 || n > 0xffff {
        return false;
    }
    for i in 0..n
        invariant
            n == cs@.len(),
            cs@ == name@,
            forall|k: int| 0 <= k < i ==> name_char(#[trigger] name@[k]),
    {
        if !is_name_char(cs[i]) {
            return false;
        }
    }
    true
}

/// Whether a text can be the value of a field.
pub fn is_field_value(value: &str) -> (r: bool)
    ensures
        r == field_value(value@),
{
    let cs = chars_of(value);
    let n: usize = cs.len();
    for i in 0..n
        invariant
            n == cs@.len(),
            cs@ == value@,
            forall|k: int| 0 <= k < i ==> value_char(#[trigger] value@[k]),
    {
        let c = cs[i];
        if !(c == '\t' || (' ' <= c && c != '\u{7f}')) {
            return false;
        }
    }
    true
}

/// The fields with the value in place of all values under the name.
pub open spec fn with_inserted(fields: Fields, name: Seq<char>, value: Seq<char>) -> Fields {
    fields.insert(lower(name), seq![encode_utf8(value)])
}

/// The values under a name; none where it does not occur.
pub open spec fn values_under(fields: Fields, key: Seq<char>) -> Seq<Seq<u8>> {
    if fields.contains_key(key) {
        fields[key]
    } else {
        Seq::empty()
    }
}

/// The fields with the value behind those under the name.
pub open spec fn with_appended(fields: Fields, name: Seq<char>, value: Seq<char>) -> Fields {
    fields.insert(lower(name), values_under(fields, lower(name)).push(encode_utf8(value)))
}

/// Whether a byte is a visible ASCII character, a space or a tab.
pub open spec fn visible(b: u8) -> bool {
    b == 9 || 32 <= b < 127
}

/// The first value under a name as text, where it is visible ASCII.
pub open spec fn field_text(fields: Fields, key: Seq<char>) -> Option<Seq<char>> {
    let values = values_under(fields, key);
    if values.len() > 0 && (forall|i: int|
        0 <= i < values[0].len() ==> visible(#[trigger] values[0][i])) {
        Some(values[0].map_values(|b: u8| b as char))
    } else {
        None
    }
}

/// A change to the fields of a message.
pub enum FieldChange {
    /// Puts the value in place of all values under the name.
    Insert(Seq<char>, Seq<char>),
    /// Puts the value behind those under the name.
    Append(Seq<char>, Seq<char>),
}

impl FieldChange {
    /// Whether the name and the value can be a field's.
    pub open spec fn allowed(self) -> bool {
        match self {
            FieldChange::Insert(name, value) => field_name(name) && field_value(value),
            FieldChange::Append(name, value) => field_name(name) && field_value(value),
        }
    }

    /// The fields after the change.
    pub open spec fn applied(self, fields: Fields) -> Fields {
        match self {
            FieldChange::Insert(name, value) => with_inserted(fields, name, value),
            FieldChange::Append(name, value) => with_appended(fields, name, value),
        }
    }
}

/// The fields after some changes, in order.
pub open spec fn after_changes(fields: Fields, changes: Seq<FieldChange>) -> Fields
    decreases changes.len(),
{
    if changes.len() == 0 {
        fields
    } else {
        changes.last().applied(after_changes(fields, changes.drop_last()))
    }
}

/// How many changes from number `i` on come before the first one that is not
/// allowed, counted from the start.
pub open spec fn allowed_until(changes: Seq<FieldChange>, i: int) -> int
    decreases changes.len() - i,
{
    if i < 0 || i >= changes.len() {
        changes.len() as int
    } else if !changes[i].allowed() {
        i
    } else {
        allowed_until(changes, i + 1)
    }
}

/// A change makes at most one name more.
pub(crate) proof fn lemma_one_name_more(fields: Fields, change: FieldChange, more: nat)
    requires
        few_names(fields, more + 1),
    ensures
        few_names(change.applied(fields), more),
{
    let key = match change {
        FieldChange::Insert(name, _) => lower(name),
        FieldChange::Append(name, _) => lower(name),
    };
    assert(change.applied(fields).dom() =~= fields.dom().insert(key));
}

pub(crate) proof fn lemma_values_in_a_row(a: Seq<char>, b: Seq<char>)
    requires
        field_value(a),
        field_value(b),
    ensures
        field_value(a + b),
{
    assert forall|i: int| 0 <= i < (a + b).len() implies value_char(#[trigger] (a + b)[i]) by {
        if i < a.len() {
            assert((a + b)[i] == a[i]);
        } else {
            assert((a + b)[i] == b[i - a.len()]);
        }
    }
}

pub(crate) proof fn lemma_digits_are_value(n: nat, base: nat)
    requires
        2 <= base <= 16,
    ensures
        field_value(digits(n, base)),
    decreases n,
{
    if n < base {
        assert(value_char(digit_char(n as int)));
    } else {
        assert(n / base < n) by (nonlinear_arith)
            requires
                2 <= base <= n,
        ;
        lemma_digits_are_value(n / base, base);
        assert(n % base < base) by (nonlinear_arith)
            requires
                2 <= base,
        ;
        assert(value_char(digit_char((n % base) as int)));
    }
}

pub(crate) proof fn lemma_joined_is_value(parts: Seq<Seq<char>>, sep: Seq<char>)
    requires
        field_value(sep),
        forall|i: int| 0 <= i < parts.len() ==> field_value(#[trigger] parts[i]),
    ensures
        field_value(joined(parts, sep)),
    decreases parts.len(),
{
    if parts.len() > 1 {
        let front = parts.drop_last();
        assert forall|i: int| 0 <= i < front.len() implies field_value(#[trigger] front[i]) by {
            assert(front[i] == parts[i]);
        }
        lemma_joined_is_value(front, sep);
        lemma_values_in_a_row(joined(front, sep), sep);
        lemma_values_in_a_row(joined(front, sep) + sep, parts.last());
    }
}

} // verus!
