//! Lists of identifiers kept in one text column, joined by `|`.
//!
//! A route row keeps the stops of a bus this way, and a stop-index row keeps
//! the buses that serve a stop. The text is the stored form; its meaning is
//! the sequence of fields given by [`split`].

use vstd::prelude::*;
use vstd::utf8::encode_utf8_decode_utf8;

verus! {

/// The reserved character that separates the identifiers of a stored list.
pub const SEPARATOR: char = '|';

/// An identifier is plain when it holds no separator, so that a stored list
/// shows it as exactly one field.
pub open spec fn is_plain(id: Seq<char>) -> bool {
    !id.contains(SEPARATOR)
}

/// The fields of `text`: the stretches between separators, in order. A text
/// with `n` separators has `n + 1` fields, some of them possibly empty; the
/// empty text has the one empty field.
pub open spec fn split(text: Seq<char>) -> Seq<Seq<char>>
    decreases text.len(),
{
    if text.len() == 0 {
        seq![Seq::<char>::empty()]
    } else {
        let before = split(text.drop_last());
        if text.last() == SEPARATOR {
            before.push(Seq::<char>::empty())
        } else {
            before.drop_last().push(before.last().push(text.last()))
        }
    }
}

/// `list` with `id` appended as stored text: the old text, a separator, the
/// identifier.
pub open spec fn appended(list: Seq<char>, id: Seq<char>) -> Seq<char> {
    list + seq![SEPARATOR] + id
}

/// The stored text of a list of fields: the fields in order, with a
/// separator between each two.
pub open spec fn join(fields: Seq<Seq<char>>) -> Seq<char>
    decreases fields.len(),
{
    if fields.len() == 0 {
        Seq::empty()
    } else if fields.len() == 1 {
        fields[0]
    } else {
        appended(join(fields.drop_last()), fields.last())
    }
}

/// Every text has at least one field.
pub proof fn lemma_split_nonempty(text: Seq<char>)
    ensures
        split(text).len() >= 1,
    decreases text.len(),
{
    if text.len() > 0 {
        lemma_split_nonempty(text.drop_last());
    }
}

/// A plain text is its own single field.
pub proof fn lemma_split_of_plain(text: Seq<char>)
    requires
        is_plain(text),
    ensures
        split(text) == seq![text],
    decreases text.len(),
{
    if text.len() == 0 {
        assert(text =~= Seq::<char>::empty());
    } else {
        let shorter = text.drop_last();
        assert forall|j: int| 0 <= j < shorter.len() implies shorter[j] != SEPARATOR by {
            assert(text[j] == shorter[j]);
        }
        lemma_split_of_plain(shorter);
        assert(text.last() == text[text.len() - 1]);
        assert(shorter.push(text.last()) =~= text);
        assert(split(text) =~= seq![text]);
    }
}

/// Splitting sees a separator between two texts as the border between their
/// fields: the fields of `left|right` are those of `left`, then those of
/// `right`.
pub proof fn lemma_split_appended(left: Seq<char>, right: Seq<char>)
    ensures
        split(appended(left, right)) == split(left) + split(right),
    decreases right.len(),
{
    let whole = appended(left, right);
    lemma_split_nonempty(left);
    if right.len() == 0 {
        assert(whole.drop_last() =~= left);
        assert(split(whole) =~= split(left) + split(right));
    } else {
        let shorter = right.drop_last();
        lemma_split_appended(left, shorter);
        lemma_split_nonempty(shorter);
        assert(whole.drop_last() =~= appended(left, shorter));
        assert(whole.last() == right.last());
        assert(split(whole) =~= split(left) + split(right));
    }
}

/// Appending a plain identifier adds exactly that identifier as the last
/// field.
pub proof fn lemma_appended_fields(list: Seq<char>, id: Seq<char>)
    requires
        is_plain(id),
    ensures
        split(appended(list, id)) == split(list).push(id),
{
    lemma_split_appended(list, id);
    lemma_split_of_plain(id);
    assert(split(list) + seq![id] =~= split(list).push(id));
}

/// Whether two texts hold the same characters.
pub fn same_text(a: &str, b: &str) -> (same: bool)
    ensures
        same == (a@ == b@),
{
    let x = a.as_bytes();
    let y = b.as_bytes();
    proof {
        encode_utf8_decode_utf8(a@);
        encode_utf8_decode_utf8(b@);
    }
    if x.len() != y.len() {
        return false;
    }
    let n: usize = x.len();
    let mut i: usize = 0;
    while i < n
        invariant
            n == x@.len(),
            n == y@.len(),
            i <= n,
            a@ == b@ ==> x@ == y@,
            forall|j: int| 0 <= j < i ==> x@[j] == y@[j],
        decreases n - i,
    {
        if x[i] != y[i] {
            return false;
        }
        i += 1;
    }
    assert(x@ =~= y@);
    true
}

/// The fields of a stored list, each as a text of its own.
pub fn split_fields(text: &str) -> (fields: Vec<String>)
    ensures
        fields.deep_view() == split(text@),
{
    let n: usize = text.unicode_len();
    let mut fields: Vec<String> = Vec::new();
    let mut start: usize = 0;
    let mut i: usize = 0;
    assert(text@.subrange(0, 0) =~= Seq::<char>::empty());
    assert(fields.deep_view().push(text@.subrange(0, 0)) =~= split(text@.subrange(0, 0)));
    while i < n
        invariant
            n == text@.len(),
            start <= i <= n,
            fields.deep_view().push(text@.subrange(start as int, i as int)) == split(
                text@.subrange(0, i as int),
            ),
        decreases n - i,
    {
        let ghost seen = text@.subrange(0, i as int);
        let ghost seen_next = text@.subrange(0, i + 1);
        let ghost done = fields.deep_view();
        let ghost current = text@.subrange(start as int, i as int);
        assert(seen_next.drop_last() =~= seen);
        assert(seen_next.last() == text@[i as int]);
        if text.get_char(i) == SEPARATOR {
            let field: String = text.substring_char(start, i).to_owned();
            fields.push(field);
            start = i + 1;
            proof {
                assert(fields.deep_view() =~= done.push(current));
                assert(text@.subrange(start as int, i + 1) =~= Seq::<char>::empty());
            }
        } else {
            proof {
                assert(text@.subrange(start as int, i + 1) =~= current.push(text@[i as int]));
                assert(done.push(current).drop_last() =~= done);
            }
        }
        i += 1;
    }
    assert(text@.subrange(0, n as int) =~= text@);
    let ghost done = fields.deep_view();
    let last: String = text.substring_char(start, n).to_owned();
    fields.push(last);
    assert(fields.deep_view() =~= done.push(text@.subrange(start as int, n as int)));
    fields
}

/// Whether `id` is one of `ids`.
pub fn is_listed(ids: &Vec<String>, id: &str) -> (listed: bool)
    ensures
        listed == ids.deep_view().contains(id@),
{
    let mut i: usize = 0;
    while i < ids.len()
        invariant
            i <= ids.len(),
            forall|j: int| 0 <= j < i ==> ids.deep_view()[j] != id@,
        decreases ids.len() - i,
    {
        assert(ids.deep_view()[i as int] == ids@[i as int]@);
        if same_text(ids[i].as_str(), id) {
            return true;
        }
        i += 1;
    }
    assert(ids.deep_view().len() == ids.len());
    false
}

/// Whether `id` is one of the fields of the stored list.
pub fn lists_id(list: &str, id: &str) -> (listed: bool)
    ensures
        listed == split(list@).contains(id@),
{
    let fields = split_fields(list);
    is_listed(&fields, id)
}

/// The stored list with `id` appended after a separator.
pub fn with_id(list: &str, id: &str) -> (longer: String)
    ensures
        longer@ == appended(list@, id@),
{
    let mut longer = list.to_owned();
    proof {
        reveal_strlit("|");
    }
    longer.append("|");
    longer.append(id);
    assert(longer@ =~= appended(list@, id@)) by {
        assert("|"@ =~= seq![SEPARATOR]);
    }
    longer
}

} // verus!
