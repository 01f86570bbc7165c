//! Turning one raw audit line into an ordered field mapping, and the
//! field mapping into structured records.
//!
//! An audit line is a blob of space-separated `key=value` fragments in
//! arbitrary order. Parsing is pure and total: fragments without `=`,
//! and fragments whose value is empty after the leading `=` is
//! stripped, are discarded; later fragments override earlier ones with
//! the same key.

use vstd::prelude::*;

use crate::serializer::{AuditError, FileOperatedOn, FileView, Operation, OperationKey, OperationView};
use crate::text::contains_str;
use crate::text::contains_substring;
use crate::text::{digits_prefix, find_char_from, index_of_first, is_digit, lemma_digits_prefix, lemma_index_of_first, lemma_index_of_first_unique, str_eq};

verus! {

/// One owned `key=value` pair taken from an audit line.
pub struct FieldEntry {
    pub key: String,
    pub value: String,
}

/// The mapping that a sequence of entries denotes: entries are applied
/// in order, so a later entry overrides an earlier one with the same key.
pub open spec fn entries_to_map(s: Seq<FieldEntry>) -> Map<Seq<char>, Seq<char>>
    decreases s.len(),
{
    if s.len() == 0 {
        Map::empty()
    } else {
        entries_to_map(s.drop_last()).insert(s.last().key@, s.last().value@)
    }
}

/// A mapping of field name to field value with unique keys, derived
/// fresh from one audit line. Every key and value is an owned copy.
pub struct FieldMap {
    pub entries: Vec<FieldEntry>,
}

impl View for FieldMap {
    type V = Map<Seq<char>, Seq<char>>;

    open spec fn view(&self) -> Map<Seq<char>, Seq<char>> {
        entries_to_map(self.entries@)
    }
}

/// Keys are pairwise distinct.
pub open spec fn entries_wf(s: Seq<FieldEntry>) -> bool {
    forall|i: int, j: int| 0 <= i < j < s.len() ==> s[i].key@ != s[j].key@
}

proof fn lemma_entries_map_dom(s: Seq<FieldEntry>)
    ensures
        forall|k: Seq<char>|
            entries_to_map(s).dom().contains(k) <==> exists|i: int|
                0 <= i < s.len() && #[trigger] s[i].key@ == k,
    decreases s.len(),
{
    if s.len() > 0 {
        let m0 = entries_to_map(s.drop_last());
        let lk = s.last().key@;
        assert(entries_to_map(s) == m0.insert(lk, s.last().value@));
        lemma_entries_map_dom(s.drop_last());
        assert forall|k: Seq<char>| entries_to_map(s).dom().contains(k) implies exists|i: int|
            0 <= i < s.len() && #[trigger] s[i].key@ == k by {
            if k == lk {
                assert(s[s.len() - 1].key@ == k);
            } else {
                assert(m0.dom().contains(k));
                let i = choose|i: int|
                    0 <= i < s.drop_last().len() && #[trigger] s.drop_last()[i].key@ == k;
                assert(s.drop_last()[i] == s[i]);
                assert(s[i].key@ == k);
            }
        }
        assert forall|k: Seq<char>|
            (exists|i: int| 0 <= i < s.len() && #[trigger] s[i].key@ == k) implies entries_to_map(
            s,
        ).dom().contains(k) by {
            let i = choose|i: int| 0 <= i < s.len() && #[trigger] s[i].key@ == k;
            if i < s.len() - 1 {
                assert(s.drop_last()[i] == s[i]);
                assert(s.drop_last()[i].key@ == k);
                assert(m0.dom().contains(k));
            } else {
                assert(k == lk);
            }
        }
    }
}

proof fn lemma_entries_map_value(s: Seq<FieldEntry>, i: int)
    requires
        entries_wf(s),
        0 <= i < s.len(),
    ensures
        entries_to_map(s).dom().contains(s[i].key@),
        entries_to_map(s)[s[i].key@] == s[i].value@,
    decreases s.len(),
{
    if i == s.len() - 1 {
    } else {
        assert(entries_wf(s.drop_last()));
        assert(s.drop_last()[i] == s[i]);
        lemma_entries_map_value(s.drop_last(), i);
        assert(s[i].key@ != s.last().key@);
    }
}

proof fn lemma_entries_map_len(s: Seq<FieldEntry>)
    requires
        entries_wf(s),
    ensures
        entries_to_map(s).dom().finite(),
        entries_to_map(s).dom().len() == s.len(),
    decreases s.len(),
{
    if s.len() > 0 {
        assert(entries_wf(s.drop_last()));
        lemma_entries_map_len(s.drop_last());
        lemma_entries_map_dom(s.drop_last());
        let k = s.last().key@;
        assert(!entries_to_map(s.drop_last()).dom().contains(k)) by {
            if entries_to_map(s.drop_last()).dom().contains(k) {
                let i = choose|i: int|
                    0 <= i < s.drop_last().len() && #[trigger] s.drop_last()[i].key@ == k;
                assert(s[i].key@ == s[s.len() - 1].key@);
            }
        }
        vstd::set::axiom_set_insert_len(entries_to_map(s.drop_last()).dom(), k);
    }
}

impl FieldMap {
    /// Keys are pairwise distinct.
    pub open spec fn wf(&self) -> bool {
        entries_wf(self.entries@)
    }

    /// An empty mapping.
    pub fn new() -> (r: FieldMap)
        ensures
            r.wf(),
            r@ == Map::<Seq<char>, Seq<char>>::empty(),
    {
        FieldMap { entries: Vec::new() }
    }

    /// The number of fields held.
    pub fn len(&self) -> (r: usize)
        requires
            self.wf(),
        ensures
            r == self@.dom().len(),
    {
        proof {
            lemma_entries_map_len(self.entries@);
        }
        self.entries.len()
    }

    /// Looks a field up by name.
    pub fn get(&self, key: &str) -> (r: Option<&String>)
        requires
            self.wf(),
        ensures
            r is Some <==> self@.dom().contains(key@),
            r matches Some(v) ==> self@.dom().contains(key@) && v@ == self@[key@],
    {
        proof {
            lemma_entries_map_dom(self.entries@);
        }
        let n = self.entries.len();
        let mut i: usize = 0;
        while i < n
            invariant
                0 <= i <= n,
                n == self.entries@.len(),
                self.wf(),
                forall|j: int| 0 <= j < i ==> self.entries@[j].key@ != key@,
            decreases n - i,
        {
            if str_eq(self.entries[i].key.as_str(), key) {
                proof {
                    lemma_entries_map_value(self.entries@, i as int);
                }
                return Some(&self.entries[i].value);
            }
            i += 1;
        }
        proof {
            lemma_entries_map_dom(self.entries@);
        }
        None
    }

    /// Adds a field, overriding any earlier value under the same name.
    pub fn insert(&mut self, key: String, value: String)
        requires
            old(self).wf(),
        ensures
            final(self).wf(),
            final(self)@ == old(self)@.insert(key@, value@),
    {
        let n = self.entries.len();
        let mut i: usize = 0;
        while i < n
            invariant
                0 <= i <= n,
                n == self.entries@.len(),
                self.wf(),
                self.entries@ == old(self).entries@,
                forall|j: int| 0 <= j < i ==> self.entries@[j].key@ != key@,
            decreases n - i,
        {
            if str_eq(self.entries[i].key.as_str(), key.as_str()) {
                proof {
                    lemma_entries_update(self.entries@, i as int, key@, value@);
                }
                self.entries.set(i, FieldEntry { key, value });
                return ;
            }
            i += 1;
        }
        proof {
            let s = self.entries@;
            let e = FieldEntry { key: key, value: value };
            assert(s.push(e).drop_last() =~= s);
            assert(forall|j: int| 0 <= j < s.len() ==> s[j].key@ != key@);
        }
        self.entries.push(FieldEntry { key, value });
    }
}

/// What one space-separated fragment puts into the field mapping: the
/// text before the first `=` maps to the text after it. A fragment
/// without `=`, or with nothing after it, contributes no field.
pub open spec fn fragment_entry(f: Seq<char>) -> Option<(Seq<char>, Seq<char>)> {
    match index_of_first(f, '=') {
        None => None,
        Some(i) => {
            let v = f.skip(i + 1);
            if v.len() == 0 {
                None
            } else {
                Some((f.take(i), v))
            }
        },
    }
}

/// Applies one fragment to an accumulated field mapping.
pub open spec fn apply_fragment(m: Map<Seq<char>, Seq<char>>, f: Seq<char>) -> Map<
    Seq<char>,
    Seq<char>,
> {
    match fragment_entry(f) {
        None => m,
        Some(kv) => m.insert(kv.0, kv.1),
    }
}

/// Applies the fragments of `s` (split on the space character, left to
/// right) to an accumulated field mapping.
pub open spec fn fields_from(m: Map<Seq<char>, Seq<char>>, s: Seq<char>) -> Map<
    Seq<char>,
    Seq<char>,
>
    decreases s.len(),
{
    match index_of_first(s, ' ') {
        None => apply_fragment(m, s),
        // a found index is always in range; the bound only keeps the
        // recursion visibly decreasing
        Some(i) => if 0 <= i < s.len() {
            fields_from(apply_fragment(m, s.take(i)), s.skip(i + 1))
        } else {
            m
        },
    }
}

/// The field mapping that one raw audit line denotes.
pub open spec fn spec_fields(s: Seq<char>) -> Map<Seq<char>, Seq<char>> {
    fields_from(Map::empty(), s)
}

/// Where a fragment splits at its first `=`: the key before it, and the
/// raw value from the `=` on. A fragment without `=` has an empty key
/// and is kept whole on the value side.
pub open spec fn split_pair(f: Seq<char>) -> (Seq<char>, Seq<char>) {
    match index_of_first(f, '=') {
        None => (Seq::empty(), f),
        Some(i) => (f.take(i), f.skip(i)),
    }
}

/// Strips one leading `=`, if present.
pub open spec fn strip_leading_eq(v: Seq<char>) -> Seq<char> {
    if v.len() > 0 && v[0] == '=' {
        v.drop_first()
    } else {
        v
    }
}

/// Replacing the entry that holds a key is, at the level of the denoted
/// mapping, an insert of the new value under that key.
proof fn lemma_entries_update(s: Seq<FieldEntry>, i: int, k: Seq<char>, v: Seq<char>)
    requires
        entries_wf(s),
        0 <= i < s.len(),
        s[i].key@ == k,
    ensures
        forall|e: FieldEntry|
            e.key@ == k && e.value@ == v ==> {
                &&& entries_wf(s.update(i, e))
                &&& entries_to_map(#[trigger] s.update(i, e)) == entries_to_map(s).insert(k, v)
            },
    decreases s.len(),
{
    assert forall|e: FieldEntry| e.key@ == k && e.value@ == v implies {
        &&& entries_wf(s.update(i, e))
        &&& entries_to_map(#[trigger] s.update(i, e)) == entries_to_map(s).insert(k, v)
    } by {
        let t = s.update(i, e);
        assert(entries_wf(t)) by {
            assert(forall|a: int| 0 <= a < s.len() ==> t[a].key@ == s[a].key@);
        }
        if i == s.len() - 1 {
            assert(t.drop_last() =~= s.drop_last());
            assert(t.last() == e);
            assert(entries_to_map(t) == entries_to_map(s.drop_last()).insert(k, v));
            assert(entries_to_map(s.drop_last()).insert(k, v) =~= entries_to_map(
                s.drop_last(),
            ).insert(k, s[i].value@).insert(k, v));
        } else {
            assert(entries_wf(s.drop_last()));
            assert(s.drop_last()[i] == s[i]);
            lemma_entries_update(s.drop_last(), i, k, v);
            assert(t.drop_last() =~= s.drop_last().update(i, e));
            assert(t.last() == s.last());
            assert(entries_to_map(t) == entries_to_map(s.drop_last()).insert(k, v).insert(
                s.last().key@,
                s.last().value@,
            ));
            assert(s.last().key@ != k);
            assert(entries_to_map(s.drop_last()).insert(k, v).insert(s.last().key@, s.last().value@)
                =~= entries_to_map(s.drop_last()).insert(s.last().key@, s.last().value@).insert(
                k,
                v,
            ));
        }
    }
}

/// The utilities that turn one raw audit line into its field mapping.
pub struct LogParsingUtils {}

impl LogParsingUtils {
    /// Splits a fragment at its first `=`; the second half keeps the
    /// `=` as its first character.
    pub fn split_by_key_and_value(unsplit_pair: &str) -> (r: (String, String))
        ensures
            (r.0@, r.1@) == split_pair(unsplit_pair@),
    {
        let n = unsplit_pair.unicode_len();
        match find_char_from(unsplit_pair, 0, '=') {
            Some(e) => {
                proof {
                    lemma_index_of_first_unique(unsplit_pair@, '=', e as int);
                }
                (
                    String::from_str(unsplit_pair.substring_char(0, e)),
                    String::from_str(unsplit_pair.substring_char(e, n)),
                )
            },
            None => {
                proof {
                    lemma_index_of_first(unsplit_pair@, '=');
                    match index_of_first(unsplit_pair@, '=') {
                        Some(i) => {
                            assert(unsplit_pair@[i] == '=');
                        },
                        None => {},
                    }
                    assert(unsplit_pair@.subrange(0, unsplit_pair@.len() as int) =~= unsplit_pair@);
                }
                (String::new(), String::from_str(unsplit_pair.substring_char(0, n)))
            },
        }
    }

    /// Strips everything up to and including the leading `=` of a raw
    /// value half, if one is there.
    pub fn reduce_equal_signs(x: &str) -> (r: String)
        ensures
            r@ == strip_leading_eq(x@),
    {
        let n = x.unicode_len();
        if n > 0 && x.get_char(0) == '=' {
            proof {
                assert(x@.subrange(1, x@.len() as int) =~= x@.drop_first());
            }
            String::from_str(x.substring_char(1, n))
        } else {
            proof {
                assert(x@.subrange(0, x@.len() as int) =~= x@);
            }
            String::from_str(x.substring_char(0, n))
        }
    }

    /// Parses one raw audit line into its field mapping: pure and
    /// total, with malformed fragments discarded and later duplicates
    /// overriding earlier ones.
    pub fn create_a_map_of_values(coded_data: String) -> (r: FieldMap)
        ensures
            r.wf(),
            r@ == spec_fields(coded_data@),
    {
        let s = coded_data.as_str();
        let n = s.unicode_len();
        let mut map = FieldMap::new();
        let mut start: usize = 0;
        let mut done = false;
        proof {
            assert(s@.skip(0) =~= s@);
        }
        while !done
            invariant
                n == s@.len(),
                s@ == coded_data@,
                0 <= start <= n,
                map.wf(),
                !done ==> fields_from(map@, s@.skip(start as int)) == spec_fields(coded_data@),
                done ==> map@ == spec_fields(coded_data@),
            decreases (if done {
                0int
            } else {
                n - start + 1
            }),
        {
            let ghost m0 = map@;
            let end = match find_char_from(s, start, ' ') {
                Some(e) => e,
                None => n,
            };
            let ghost frag = s@.subrange(start as int, end as int);
            proof {
                assert(end == n ==> forall|j: int| start <= j < n ==> s@[j] != ' ');
                assert(forall|j: int| start <= j < end ==> s@[j] != ' ');
            }
            let eq = find_char_from(s, start, '=');
            let do_insert = match eq {
                Some(e) => e + 1 < end,
                None => false,
            };
            if do_insert {
                let e = match eq {
                    Some(e) => e,
                    None => 0,
                };
                let k = String::from_str(s.substring_char(start, e));
                let v = String::from_str(s.substring_char(e + 1, end));
                proof {
                    let fi = e - start;
                    assert(forall|t: int| 0 <= t < frag.len() ==> frag[t] == s@[start + t]);
                    lemma_index_of_first_unique(frag, '=', fi);
                    assert(frag.skip(fi + 1) =~= s@.subrange(e + 1, end as int));
                    assert(frag.take(fi) =~= s@.subrange(start as int, e as int));
                    assert(frag.skip(fi + 1).len() > 0);
                    assert(fragment_entry(frag) == Some((k@, v@)));
                }
                map.insert(k, v);
                proof {
                    assert(map@ == apply_fragment(m0, frag));
                }
            } else {
                proof {
                    lemma_index_of_first(frag, '=');
                    match index_of_first(frag, '=') {
                        Some(fi) => {
                            assert(frag[fi] == '=');
                            assert(frag[fi] == s@[start + fi]);
                            match eq {
                                Some(e) => {
                                    assert(start + fi >= e) by {
                                        if start + fi < e {
                                            assert(s@[start + fi] != '=');
                                        }
                                    }
                                    assert(e + 1 >= end);
                                    assert(start + fi < end);
                                    assert(fi == e - start) by {
                                        if fi > e - start {
                                            assert(frag[e - start] == s@[e as int]);
                                            assert(frag[e - start] == '=');
                                            assert(frag[e - start] != '=');
                                        }
                                    }
                                    assert(frag.skip(fi + 1).len() == 0);
                                    assert(fragment_entry(frag) is None);
                                },
                                None => {
                                    assert(s@[start + fi] != '=');
                                    assert(false);
                                },
                            }
                        },
                        None => {
                            assert(fragment_entry(frag) is None);
                        },
                    }
                    assert(map@ == apply_fragment(m0, frag));
                }
            }
            if end == n {
                proof {
                    let rem = s@.skip(start as int);
                    lemma_index_of_first(rem, ' ');
                    match index_of_first(rem, ' ') {
                        Some(i) => {
                            assert(rem[i] == s@[start + i]);
                            assert(rem[i] == ' ');
                            assert(false);
                        },
                        None => {},
                    }
                    assert(fields_from(m0, rem) == apply_fragment(m0, rem));
                    assert(frag =~= rem);
                }
                done = true;
            } else {
                proof {
                    let rem = s@.skip(start as int);
                    let i = end - start;
                    assert(forall|t: int| 0 <= t < rem.len() ==> rem[t] == s@[start + t]);
                    assert(rem[i as int] == ' ');
                    lemma_index_of_first_unique(rem, ' ', i as int);
                    assert(fields_from(m0, rem) == fields_from(
                        apply_fragment(m0, rem.take(i as int)),
                        rem.skip(i + 1),
                    ));
                    assert(rem.take(i as int) =~= frag);
                    assert(rem.skip(i + 1) =~= s@.skip(end + 1));
                }
                start = end + 1;
            }
        }
        map
    }
}

/// The six characters every structured audit timestamp starts with.
pub open spec fn audit_prefix() -> Seq<char> {
    seq!['a', 'u', 'd', 'i', 't', '(']
}

/// Whether a raw timestamp field has the exact shape
/// `audit(<seconds>.<millis>:<id>):`, with each part a non-empty run
/// of decimal digits and nothing after the closing `):`.
pub open spec fn is_audit_timestamp(s: Seq<char>) -> bool {
    &&& s.len() > 6
    &&& s.take(6) == audit_prefix()
    &&& {
        let rest = s.skip(6);
        let secs = digits_prefix(rest);
        &&& secs.len() > 0
        &&& {
            let r1 = rest.skip(secs.len() as int);
            &&& r1.len() > 0
            &&& r1[0] == '.'
            &&& {
                let r2 = r1.skip(1);
                let mil = digits_prefix(r2);
                &&& mil.len() > 0
                &&& {
                    let r3 = r2.skip(mil.len() as int);
                    &&& r3.len() > 0
                    &&& r3[0] == ':'
                    &&& {
                        let r4 = r3.skip(1);
                        let id = digits_prefix(r4);
                        &&& id.len() > 0
                        &&& r4.skip(id.len() as int) == seq![')', ':']
                    }
                }
            }
        }
    }
}

/// The `<seconds>` part of a structured audit timestamp.
pub open spec fn audit_timestamp_seconds(s: Seq<char>) -> Seq<char> {
    digits_prefix(s.skip(6))
}

/// Whether `c` is a decimal digit.
fn is_ascii_digit(c: char) -> (r: bool)
    ensures
        r == is_digit(c),
{
    c >= '0' && c <= '9'
}

/// The end of the run of decimal digits that starts at `from`.
fn digit_run_end(s: &str, from: usize) -> (r: usize)
    requires
        from <= s@.len(),
    ensures
        from <= r <= s@.len(),
        forall|j: int| from <= j < r ==> is_digit(s@[j]),
        r < s@.len() ==> !is_digit(s@[r as int]),
{
    let n = s.unicode_len();
    let mut i = from;
    while i < n
        invariant
            from <= i <= n,
            n == s@.len(),
            forall|j: int| from <= j < i ==> is_digit(s@[j]),
        decreases n - i,
    {
        if !is_ascii_digit(s.get_char(i)) {
            return i;
        }
        i += 1;
    }
    i
}

impl LogParsingUtils {
    /// Extracts the epoch-seconds text out of a raw timestamp field, or
    /// reports that the field does not match the expected shape.
    #[verifier::rlimit(60)]
    pub fn get_unix_time_from_timestamp(msg_str: String) -> (r: Result<String, AuditError>)
        ensures
            r is Ok <==> is_audit_timestamp(msg_str@),
            r matches Ok(t) ==> t@ == audit_timestamp_seconds(msg_str@),
            r matches Err(e) ==> e is MalformedTimestamp,
    {
        let s = msg_str.as_str();
        let n = s.unicode_len();
        let prefix_ok = n > 6 && s.get_char(0) == 'a' && s.get_char(1) == 'u' && s.get_char(2)
            == 'd' && s.get_char(3) == 'i' && s.get_char(4) == 't' && s.get_char(5) == '(';
        if !prefix_ok {
            proof {
                if s@.len() > 6 {
                    assert(s@.take(6).len() == 6);
                    assert(forall|j: int| 0 <= j < 6 ==> s@.take(6)[j] == s@[j]);
                    assert(s@.take(6) != audit_prefix());
                }
            }
            return Err(AuditError::MalformedTimestamp);
        }
        proof {
            assert(s@.take(6) =~= audit_prefix());
        }
        let ghost rest = s@.skip(6);
        proof {
            assert(forall|t: int| 0 <= t < rest.len() ==> rest[t] == s@[6 + t]);
        }
        let sec_end = digit_run_end(s, 6);
        proof {
            lemma_digits_prefix(rest, sec_end - 6);
            assert(digits_prefix(rest) =~= s@.subrange(6, sec_end as int));
            assert(rest.skip(sec_end - 6) =~= s@.skip(sec_end as int));
        }
        if sec_end == 6 || sec_end == n || s.get_char(sec_end) != '.' {
            return Err(AuditError::MalformedTimestamp);
        }
        let ghost r2 = s@.skip(sec_end + 1);
        proof {
            assert(s@.skip(sec_end as int).skip(1) =~= r2);
            assert(forall|t: int| 0 <= t < r2.len() ==> r2[t] == s@[sec_end + 1 + t]);
        }
        let mil_end = digit_run_end(s, sec_end + 1);
        proof {
            lemma_digits_prefix(r2, mil_end - sec_end - 1);
            assert(digits_prefix(r2) =~= s@.subrange(sec_end + 1, mil_end as int));
            assert(r2.skip(mil_end - sec_end - 1) =~= s@.skip(mil_end as int));
        }
        if mil_end == sec_end + 1 || mil_end == n || s.get_char(mil_end) != ':' {
            return Err(AuditError::MalformedTimestamp);
        }
        let ghost r4 = s@.skip(mil_end + 1);
        proof {
            assert(s@.skip(mil_end as int).skip(1) =~= r4);
            assert(forall|t: int| 0 <= t < r4.len() ==> r4[t] == s@[mil_end + 1 + t]);
        }
        let id_end = digit_run_end(s, mil_end + 1);
        proof {
            lemma_digits_prefix(r4, id_end - mil_end - 1);
            assert(digits_prefix(r4) =~= s@.subrange(mil_end + 1, id_end as int));
            assert(r4.skip(id_end - mil_end - 1) =~= s@.skip(id_end as int));
        }
        if id_end == mil_end + 1 {
            return Err(AuditError::MalformedTimestamp);
        }
        if !(n - id_end == 2 && s.get_char(id_end) == ')' && s.get_char(id_end + 1) == ':') {
            proof {
                let tail = s@.skip(id_end as int);
                if tail == seq![')', ':'] {
                    assert(tail.len() == 2);
                    assert(tail[0] == ')');
                    assert(tail[1] == ':');
                    assert(s@[id_end as int] == ')');
                    assert(s@[id_end + 1] == ':');
                    assert(false);
                }
            }
            return Err(AuditError::MalformedTimestamp);
        }
        proof {
            assert(s@.skip(id_end as int) =~= seq![')', ':']);
        }
        Ok(String::from_str(s.substring_char(6, sec_end)))
    }
}

/// Text free of quote characters and backslashes: unescaping passes it
/// through unchanged.
pub open spec fn plain_text(s: Seq<char>) -> bool {
    forall|i: int| 0 <= i < s.len() ==> s[i] != '"' && s[i] != '\'' && s[i] != '\\'
}

/// Plain text wrapped in one pair of double quotes: unescaping strips
/// the quotes and keeps the middle.
pub open spec fn double_quoted_plain(s: Seq<char>) -> bool {
    s.len() >= 2 && s[0] == '"' && s[s.len() - 1] == '"' && plain_text(
        s.subrange(1, s.len() - 1),
    )
}

/// What unescaping a raw field value yields: `None` where the quoting
/// or escapes are malformed. The result depends on the characters alone.
pub uninterp spec fn unescaped_of(s: Seq<char>) -> Option<Seq<char>>;

#[verifier::external_type_specification]
#[verifier::external_body]
pub struct ExUnescapeError(snailquote::UnescapeError);

/// Relies on snailquote::unescape: shell-style quotes are stripped and
/// backslash escapes resolved, deterministically in the input. Per its
/// source, text without quote characters or backslashes passes through
/// unchanged, and such text wrapped in one pair of double quotes loses
/// exactly the quotes.
#[verifier::external_body]
fn unescape_raw(s: &str) -> (r: Result<String, snailquote::UnescapeError>)
    ensures
        r is Ok <==> unescaped_of(s@) is Some,
        r matches Ok(t) ==> unescaped_of(s@) matches Some(u) && t@ == u,
        r matches Ok(t) ==> (plain_text(s@) ==> t@ == s@),
        r matches Ok(t) ==> (double_quoted_plain(s@) ==> t@ == s@.subrange(1, s@.len() - 1)),
        r is Err ==> !plain_text(s@) && !double_quoted_plain(s@),
{
    snailquote::unescape(s)
}

/// Resolves quoting and escapes in one raw field value, or reports the
/// value malformed.
pub fn unescape_value(s: &str) -> (r: Result<String, AuditError>)
    ensures
        r is Ok <==> unescaped_of(s@) is Some,
        r matches Ok(t) ==> unescaped_of(s@) == Some(t@),
        r matches Err(e) ==> e is MalformedValue,
        r matches Ok(t) ==> (plain_text(s@) ==> t@ == s@),
        r matches Ok(t) ==> (double_quoted_plain(s@) ==> t@ == s@.subrange(1, s@.len() - 1)),
        r is Err ==> !plain_text(s@) && !double_quoted_plain(s@),
{
    match unescape_raw(s) {
        Ok(t) => Ok(t),
        Err(_) => Err(AuditError::MalformedValue),
    }
}

/// The token whose presence anywhere in the raw operation tag makes the
/// operation a read.
pub open spec fn read_token() -> Seq<char> {
    seq!['R', 'E', 'A', 'D']
}

/// How a raw operation-tag value classifies: a read if it contains the
/// `READ` token anywhere, otherwise a write.
pub open spec fn spec_operation_key(raw: Seq<char>) -> OperationKey {
    if contains_substring(raw, read_token()) {
        OperationKey::READ
    } else {
        OperationKey::WRITE
    }
}

/// The sentinel value a descriptive field takes when its key is absent.
pub open spec fn unknown_token() -> Seq<char> {
    seq!['u', 'n', 'k', 'n', 'o', 'w', 'n']
}

/// The field that marks a line as a tracked operation.
pub open spec fn operation_tag_key() -> Seq<char> {
    seq!['k', 'e', 'y']
}

/// The field that carries the structured timestamp.
pub open spec fn timestamp_key() -> Seq<char> {
    seq!['m', 's', 'g']
}

/// The field naming the user behind the operation.
pub open spec fn username_key() -> Seq<char> {
    seq!['U', 'I', 'D']
}

/// The field naming the user's group.
pub open spec fn group_key() -> Seq<char> {
    seq!['G', 'I', 'D']
}

/// The field naming the executable involved.
pub open spec fn executable_key() -> Seq<char> {
    seq!['e', 'x', 'e']
}

/// The field naming the syscall observed.
pub open spec fn syscall_key() -> Seq<char> {
    seq!['S', 'Y', 'S', 'C', 'A', 'L', 'L']
}

/// The field naming the file a path-type line reports.
pub open spec fn name_key() -> Seq<char> {
    seq!['n', 'a', 'm', 'e']
}

/// A descriptive field resolves to its unescaped value when present,
/// and to the `unknown` sentinel when absent; `None` marks a present
/// value whose escapes are malformed.
pub open spec fn field_or_unknown(m: Map<Seq<char>, Seq<char>>, k: Seq<char>) -> Option<Seq<char>> {
    if m.dom().contains(k) {
        unescaped_of(m[k])
    } else {
        Some(unknown_token())
    }
}

/// What classifying one raw audit line yields: no operation without the
/// tag, a distinct timestamp failure when the tag is present but the
/// timestamp field is absent or malformed, a value failure when a
/// present field cannot be unescaped, and otherwise the full record.
pub open spec fn classify_model(line: Seq<char>) -> Result<Option<OperationView>, AuditError> {
    let m = spec_fields(line);
    if !m.dom().contains(operation_tag_key()) {
        Ok(None)
    } else if !m.dom().contains(timestamp_key()) || !is_audit_timestamp(m[timestamp_key()]) {
        Err(AuditError::MalformedTimestamp)
    } else if field_or_unknown(m, username_key()) is None || field_or_unknown(m, group_key()) is None
        || field_or_unknown(m, executable_key()) is None || field_or_unknown(
        m,
        syscall_key(),
    ) is None {
        Err(AuditError::MalformedValue)
    } else {
        Ok(
            Some(
                OperationView {
                    user: field_or_unknown(m, username_key()).unwrap(),
                    group: field_or_unknown(m, group_key()).unwrap(),
                    executable: field_or_unknown(m, executable_key()).unwrap(),
                    syscall: field_or_unknown(m, syscall_key()).unwrap(),
                    timestamp: audit_timestamp_seconds(m[timestamp_key()]),
                    key: spec_operation_key(m[operation_tag_key()]),
                },
            ),
        )
    }
}

/// The view of a classification result.
pub open spec fn classify_result_view(r: Result<Option<Operation>, AuditError>) -> Result<
    Option<OperationView>,
    AuditError,
> {
    match r {
        Ok(None) => Ok(None),
        Ok(Some(op)) => Ok(Some(op@)),
        Err(e) => Err(e),
    }
}

/// The `unknown` sentinel as an owned string.
fn unknown_string() -> (r: String)
    ensures
        r@ == unknown_token(),
{
    let r = String::from_str("unknown");
    proof {
        reveal_strlit("unknown");
        assert(r@ =~= unknown_token());
    }
    r
}

/// Resolves one descriptive field: the unescaped stored value when the
/// key is present, the `unknown` sentinel when it is absent.
fn resolve_field(values_map: &FieldMap, key: &str) -> (r: Result<String, AuditError>)
    requires
        values_map.wf(),
    ensures
        r is Ok <==> field_or_unknown(values_map@, key@) is Some,
        r matches Ok(t) ==> field_or_unknown(values_map@, key@) == Some(t@),
        r matches Err(e) ==> e is MalformedValue,
{
    match values_map.get(key) {
        None => Ok(unknown_string()),
        Some(v) => unescape_value(v.as_str()),
    }
}

impl LogParsingUtils {
    /// Classifies a raw operation-tag value: a read if its text contains
    /// the `READ` token anywhere, otherwise a write.
    pub fn get_operation_from_key(operation_str: String) -> (r: OperationKey)
        ensures
            r == spec_operation_key(operation_str@),
    {
        proof {
            reveal_strlit("READ");
            assert("READ"@ =~= read_token());
        }
        if contains_str(operation_str.as_str(), "READ") {
            OperationKey::READ
        } else {
            OperationKey::WRITE
        }
    }
}

impl Operation {
    /// Classifies one raw audit line. Yields the structured record when
    /// the line carries the operation tag, `None` when it does not, and
    /// a typed failure when the tag is present but the line cannot be
    /// turned into a complete record.
    pub fn new(log_output: String) -> (r: Result<Option<Operation>, AuditError>)
        ensures
            classify_result_view(r) == classify_model(log_output@),
    {
        let ghost line = log_output@;
        let values_map = LogParsingUtils::create_a_map_of_values(log_output);
        proof {
            reveal_strlit("key");
            reveal_strlit("msg");
            reveal_strlit("UID");
            reveal_strlit("GID");
            reveal_strlit("exe");
            reveal_strlit("SYSCALL");
            assert("key"@ =~= operation_tag_key());
            assert("msg"@ =~= timestamp_key());
            assert("UID"@ =~= username_key());
            assert("GID"@ =~= group_key());
            assert("exe"@ =~= executable_key());
            assert("SYSCALL"@ =~= syscall_key());
        }
        let tag = match values_map.get("key") {
            None => {
                return Ok(None);
            },
            Some(t) => t.clone(),
        };
        let msg = match values_map.get("msg") {
            None => {
                return Err(AuditError::MalformedTimestamp);
            },
            Some(v) => v.clone(),
        };
        let timestamp = match LogParsingUtils::get_unix_time_from_timestamp(msg) {
            Ok(t) => t,
            Err(e) => {
                return Err(e);
            },
        };
        let user = match resolve_field(&values_map, "UID") {
            Ok(v) => v,
            Err(e) => {
                return Err(e);
            },
        };
        let group = match resolve_field(&values_map, "GID") {
            Ok(v) => v,
            Err(e) => {
                return Err(e);
            },
        };
        let executable = match resolve_field(&values_map, "exe") {
            Ok(v) => v,
            Err(e) => {
                return Err(e);
            },
        };
        let syscall = match resolve_field(&values_map, "SYSCALL") {
            Ok(v) => v,
            Err(e) => {
                return Err(e);
            },
        };
        let key = LogParsingUtils::get_operation_from_key(tag);
        let op = Operation { user, group, executable, syscall, timestamp, key };
        proof {
            assert(classify_model(line) matches Ok(o) && o matches Some(v) && op@ =~= v);
        }
        Ok(Some(op))
    }
}

/// What the path classifier yields for one raw line and one inherited
/// timestamp: no records without the filename field, a value failure
/// when it cannot be unescaped, and otherwise one record whose name is
/// the unescaped value and whose timestamp is the inherited one.
pub open spec fn paths_model(line: Seq<char>, ts: Seq<char>) -> Result<
    Option<Seq<FileView>>,
    AuditError,
> {
    let m = spec_fields(line);
    if !m.dom().contains(name_key()) {
        Ok(None)
    } else {
        match unescaped_of(m[name_key()]) {
            None => Err(AuditError::MalformedValue),
            Some(n) => Ok(Some(seq![FileView { name: n, timestamp: ts }])),
        }
    }
}

/// The view of a path-classification result.
pub open spec fn paths_result_view(r: Result<Option<Vec<FileOperatedOn>>, AuditError>) -> Result<
    Option<Seq<FileView>>,
    AuditError,
> {
    match r {
        Ok(None) => Ok(None),
        Ok(Some(v)) => Ok(Some(Seq::new(v@.len(), |i: int| v@[i]@))),
        Err(e) => Err(e),
    }
}

impl FileOperatedOn {
    /// Classifies one raw path-type audit line against a caller-supplied
    /// timestamp carried over from the most recent operation.
    pub fn new(log_output: String, timestamp: String) -> (r: Result<
        Option<Vec<FileOperatedOn>>,
        AuditError,
    >)
        ensures
            paths_result_view(r) == paths_model(log_output@, timestamp@),
    {
        let ghost line = log_output@;
        let ghost ts = timestamp@;
        let values_map = LogParsingUtils::create_a_map_of_values(log_output);
        proof {
            reveal_strlit("name");
            assert("name"@ =~= name_key());
        }
        let raw = match values_map.get("name") {
            None => {
                return Ok(None);
            },
            Some(v) => v.clone(),
        };
        let name = match unescape_value(raw.as_str()) {
            Ok(v) => v,
            Err(e) => {
                return Err(e);
            },
        };
        let mut files: Vec<FileOperatedOn> = Vec::new();
        files.push(FileOperatedOn { name, timestamp });
        proof {
            assert(Seq::new(files@.len(), |i: int| files@[i]@) =~= seq![
                FileView { name: unescaped_of(spec_fields(line)[name_key()]).unwrap(), timestamp: ts },
            ]);
        }
        Ok(Some(files))
    }
}

/// A line without the operation tag yields "no operation", never a
/// partially populated record.
pub proof fn lemma_missing_tag_yields_no_operation(line: Seq<char>)
    requires
        !spec_fields(line).dom().contains(operation_tag_key()),
    ensures
        classify_model(line) == Ok::<Option<OperationView>, AuditError>(None),
{
}

/// With the operation tag present, a sound timestamp field, and every
/// descriptive field absent, each of the four descriptive fields of the
/// classified record falls back to the `unknown` sentinel.
pub proof fn lemma_absent_fields_default_to_unknown(line: Seq<char>)
    requires
        spec_fields(line).dom().contains(operation_tag_key()),
        spec_fields(line).dom().contains(timestamp_key()),
        is_audit_timestamp(spec_fields(line)[timestamp_key()]),
        !spec_fields(line).dom().contains(username_key()),
        !spec_fields(line).dom().contains(group_key()),
        !spec_fields(line).dom().contains(executable_key()),
        !spec_fields(line).dom().contains(syscall_key()),
    ensures
        classify_model(line) matches Ok(o) && o matches Some(v) && v.user == unknown_token()
            && v.group == unknown_token() && v.executable == unknown_token() && v.syscall
            == unknown_token(),
{
}

/// Round trip on the value side: splitting a well-formed `key=value`
/// fragment at its first `=` and stripping the leading `=` recovers the
/// original value exactly; when the value is non-empty, the fragment
/// contributes exactly that pair to the field mapping.
pub proof fn lemma_fragment_value_round_trip(key: Seq<char>, value: Seq<char>)
    requires
        !key.contains('='),
    ensures
        strip_leading_eq(split_pair(key + seq!['='] + value).1) == value,
        value.len() > 0 ==> fragment_entry(key + seq!['='] + value) == Some((key, value)),
{
    let f = key + seq!['='] + value;
    assert(f[key.len() as int] == '=');
    assert(forall|j: int| 0 <= j < key.len() ==> f[j] == key[j]);
    assert(forall|j: int| 0 <= j < key.len() ==> f[j] != '=') by {
        assert(forall|j: int| 0 <= j < key.len() ==> key[j] != '=');
    }
    lemma_index_of_first_unique(f, '=', key.len() as int);
    assert(f.skip(key.len() as int).drop_first() =~= value);
    assert(f.skip(key.len() as int)[0] == '=');
    assert(f.take(key.len() as int) =~= key);
    assert(f.skip(key.len() as int + 1) =~= value);
}

} // verus!
