//! The string entries of a PSP `PARAM.SFO` file.
use vstd::prelude::*;
use vstd::utf8::{decode_utf8, valid_utf8};

use crate::error::{message, message_with, PipelineError, Result};
use crate::text::chars_of;

verus! {

/// Text from UTF-8 bytes.
///
/// Trusted: `std::str::from_utf8` succeeds exactly on well-formed UTF-8 and then yields the
/// characters that the bytes encode.
#[verifier::external_body]
pub(crate) fn utf8_text(bytes: &[u8]) -> (r: Option<String>)
    ensures
        r is Some <==> valid_utf8(bytes@),
        r matches Some(s) ==> s@ == decode_utf8(bytes@),
{
    std::str::from_utf8(bytes).ok().map(str::to_owned)
}

/// A little-endian 16-bit number at `off`.
pub open spec fn le16(b: Seq<u8>, off: int) -> int {
    b[off] as int + 256 * (b[off + 1] as int)
}

/// A little-endian 32-bit number at `off`.
pub open spec fn le32(b: Seq<u8>, off: int) -> int {
    b[off] as int + 256 * (b[off + 1] as int) + 65536 * (b[off + 2] as int) + 16777216 * (b[off
        + 3] as int)
}

/// The first index at or after `from` that holds a zero byte.
pub open spec fn first_zero(b: Seq<u8>, from: int) -> Option<int>
    decreases b.len() - from,
{
    if from < 0 || from >= b.len() {
        None
    } else if b[from] == 0 {
        Some(from)
    } else {
        first_zero(b, from + 1)
    }
}

/// The bytes of a value up to its first zero byte.
pub open spec fn value_bytes(v: Seq<u8>) -> Seq<u8> {
    match first_zero(v, 0) {
        Some(n) => v.take(n),
        None => v,
    }
}

/// The magic bytes of a `PARAM.SFO` header.
pub open spec fn sfo_magic() -> Seq<u8> {
    seq![0u8, 0x50u8, 0x53u8, 0x46u8]
}

/// What reading the index entries from `i` on adds to `acc`, or the message of the first
/// error.
pub open spec fn sfo_entries(
    b: Seq<u8>,
    key_table: int,
    data_table: int,
    count: int,
    i: int,
    acc: Map<Seq<char>, Seq<char>>,
) -> core::result::Result<Map<Seq<char>, Seq<char>>, Seq<char>>
    decreases count - i,
{
    if i < 0 || i >= count {
        Ok(acc)
    } else {
        let off = 20 + 16 * i;
        let key_offset = le16(b, off);
        let format = le16(b, off + 2);
        let data_length = le32(b, off + 4);
        let data_offset = le32(b, off + 12);
        let key_start = key_table + key_offset;
        let data_start = data_table + data_offset;
        let data_end = data_start + data_length;
        if format != 0x0204 {
            sfo_entries(b, key_table, data_table, count, i + 1, acc)
        } else if key_start > usize::MAX {
            Err("PARAM.SFO key overflow"@)
        } else if data_start > usize::MAX {
            Err("PARAM.SFO data overflow"@)
        } else if data_end > usize::MAX {
            Err("PARAM.SFO value overflow"@)
        } else if key_start >= b.len() || data_end > b.len() {
            Err("PARAM.SFO entry is outside the file"@)
        } else {
            match first_zero(b, key_start) {
                None => Err("PARAM.SFO key is unterminated"@),
                Some(key_end) => {
                    let key = b.subrange(key_start, key_end);
                    let value = value_bytes(b.subrange(data_start, data_end));
                    if !valid_utf8(key) {
                        Err("PARAM.SFO key is not UTF-8"@)
                    } else if !valid_utf8(value) {
                        Err("PARAM.SFO value is not UTF-8: "@ + decode_utf8(key))
                    } else {
                        sfo_entries(
                            b,
                            key_table,
                            data_table,
                            count,
                            i + 1,
                            acc.insert(decode_utf8(key), decode_utf8(value)),
                        )
                    }
                },
            }
        }
    }
}

/// What `parse_strings` gives for a file: the string entries keyed by name, or the message
/// of the error.
pub open spec fn spec_parse_sfo(b: Seq<u8>) -> core::result::Result<
    Map<Seq<char>, Seq<char>>,
    Seq<char>,
> {
    if b.len() < 20 || b.take(4) != sfo_magic() {
        Err("PARAM.SFO has an invalid header"@)
    } else {
        let key_table = le32(b, 8);
        let data_table = le32(b, 12);
        let count = le32(b, 16);
        if 20 + 16 * count > usize::MAX {
            Err("PARAM.SFO index overflow"@)
        } else if 20 + 16 * count > b.len() || key_table > b.len() || data_table > b.len() {
            Err("PARAM.SFO tables are outside the file"@)
        } else {
            sfo_entries(b, key_table, data_table, count, 0, Map::empty())
        }
    }
}

/// String entries keyed by name, each name at most once.
#[derive(Debug)]
pub struct SfoStrings {
    entries: Vec<(String, String)>,
}

/// The names are unique.
pub open spec fn unique_keys(e: Seq<(String, String)>) -> bool {
    forall|i: int, j: int| 0 <= i < e.len() && 0 <= j < e.len() && i != j ==> #[trigger] e[i].0@
        != #[trigger] e[j].0@
}

/// The map that a list of entries holds.
pub open spec fn entries_map(e: Seq<(String, String)>) -> Map<Seq<char>, Seq<char>> {
    Map::new(
        |k: Seq<char>| exists|i: int| 0 <= i < e.len() && #[trigger] e[i].0@ == k,
        |k: Seq<char>| e[choose|i: int| 0 <= i < e.len() && #[trigger] e[i].0@ == k].1@,
    )
}

impl SfoStrings {
    /// Each name is held once.
    #[verifier::type_invariant]
    spec fn wf(self) -> bool {
        unique_keys(self.entries@)
    }

    /// The entries as a map from name to value.
    pub closed spec fn spec_map(&self) -> Map<Seq<char>, Seq<char>> {
        entries_map(self.entries@)
    }

    /// No entries.
    pub fn new() -> (r: Self)
        ensures
            r.spec_map() == Map::<Seq<char>, Seq<char>>::empty(),
    {
        let r = SfoStrings { entries: Vec::new() };
        assert(r.spec_map() =~= Map::<Seq<char>, Seq<char>>::empty());
        r
    }

    /// Sets the value of a name, replacing an earlier one.
    pub fn insert(&mut self, key: String, value: String)
        ensures
            final(self).spec_map() == old(self).spec_map().insert(key@, value@),
    {
        proof {
            use_type_invariant(&*self);
        }
        let ghost e = self.entries@;
        let mut i: usize = 0;
        while i < self.entries.len()
            invariant
                i <= e.len(),
                e == self.entries@,
                e == old(self).entries@,
                unique_keys(e),
                forall|j: int| 0 <= j < i ==> #[trigger] e[j].0@ != key@,
            decreases e.len() - i,
        {
            if self.entries[i].0 == key {
                let ghost idx = i as int;
                let mut entries: Vec<(String, String)> = Vec::new();
        std::mem::swap(&mut entries, &mut self.entries);
                assert(entries@ == e);
                entries.set(i, (key, value));
                let ghost n = entries@;
                assert(unique_keys(n)) by {
                    assert forall|a: int, b: int|
                        0 <= a < n.len() && 0 <= b < n.len() && a != b implies #[trigger] n[a].0@
                        != #[trigger] n[b].0@ by {
                        assert(n[a].0@ == e[a].0@);
                        assert(n[b].0@ == e[b].0@);
                    }
                }
                assert(entries_map(n) =~= entries_map(e).insert(key@, value@)) by {
                    assert(n[idx].0@ == key@);
                    assert forall|k: Seq<char>| #[trigger] entries_map(n).contains_key(k) == entries_map(
                        e,
                    ).insert(key@, value@).contains_key(k) by {
                        if exists|j: int| 0 <= j < n.len() && #[trigger] n[j].0@ == k {
                            let j = choose|j: int| 0 <= j < n.len() && #[trigger] n[j].0@ == k;
                            assert(e[j].0@ == k);
                        }
                        if exists|j: int| 0 <= j < e.len() && #[trigger] e[j].0@ == k {
                            let j = choose|j: int| 0 <= j < e.len() && #[trigger] e[j].0@ == k;
                            assert(n[j].0@ == k);
                        }
                        if k == key@ {
                            assert(n[idx].0@ == k);
                        }
                    }
                    assert forall|k: Seq<char>| #[trigger] entries_map(n).contains_key(k) implies entries_map(
                    n)[k] == entries_map(e).insert(key@, value@)[k] by {
                        let j = choose|j: int| 0 <= j < n.len() && #[trigger] n[j].0@ == k;
                        if k == key@ {
                            assert(j == idx);
                        } else {
                            assert(e[j].0@ == k);
                            let j2 = choose|j2: int| 0 <= j2 < e.len() && #[trigger] e[j2].0@ == k;
                            assert(j2 == j);
                        }
                    }
                }
                self.entries = entries;
                return ;
            }
            i += 1;
        }
        let mut entries: Vec<(String, String)> = Vec::new();
        std::mem::swap(&mut entries, &mut self.entries);
        assert(entries@ == e);
        entries.push((key, value));
        let ghost n = entries@;
        assert(unique_keys(n)) by {
            assert forall|a: int, b: int|
                0 <= a < n.len() && 0 <= b < n.len() && a != b implies #[trigger] n[a].0@
                != #[trigger] n[b].0@ by {
                if a < e.len() && b < e.len() {
                    assert(n[a] == e[a]);
                    assert(n[b] == e[b]);
                } else if a < e.len() {
                    assert(n[a] == e[a]);
                } else {
                    assert(n[b] == e[b]);
                }
            }
        }
        assert(entries_map(n) =~= entries_map(e).insert(key@, value@)) by {
            let last = e.len() as int;
            assert(n[last].0@ == key@);
            assert forall|k: Seq<char>| #[trigger] entries_map(n).contains_key(k) == entries_map(
                e,
            ).insert(key@, value@).contains_key(k) by {
                if exists|j: int| 0 <= j < n.len() && #[trigger] n[j].0@ == k {
                    let j = choose|j: int| 0 <= j < n.len() && #[trigger] n[j].0@ == k;
                    if j < last {
                        assert(e[j].0@ == k);
                    }
                }
                if exists|j: int| 0 <= j < e.len() && #[trigger] e[j].0@ == k {
                    let j = choose|j: int| 0 <= j < e.len() && #[trigger] e[j].0@ == k;
                    assert(n[j].0@ == k);
                }
                if k == key@ {
                    assert(n[last].0@ == k);
                }
            }
            assert forall|k: Seq<char>| #[trigger] entries_map(n).contains_key(k) implies entries_map(
            n)[k] == entries_map(e).insert(key@, value@)[k] by {
                let j = choose|j: int| 0 <= j < n.len() && #[trigger] n[j].0@ == k;
                if k == key@ {
                    if j < last {
                        assert(e[j].0@ == key@);
                    }
                    assert(j == last);
                } else {
                    assert(j < last);
                    assert(e[j].0@ == k);
                    let j2 = choose|j2: int| 0 <= j2 < e.len() && #[trigger] e[j2].0@ == k;
                    assert(n[j2].0@ == k);
                    assert(j2 == j);
                }
            }
        }
        self.entries = entries;
    }

    /// The value of a name.
    pub fn get(&self, key: &str) -> (r: Option<&String>)
        ensures
            r is Some <==> self.spec_map().contains_key(key@),
            r matches Some(v) ==> v@ == self.spec_map()[key@],
    {
        proof {
            use_type_invariant(self);
        }
        let wanted = key.to_owned();
        let mut i: usize = 0;
        while i < self.entries.len()
            invariant
                i <= self.entries@.len(),
                wanted@ == key@,
                unique_keys(self.entries@),
                forall|j: int| 0 <= j < i ==> #[trigger] self.entries@[j].0@ != key@,
            decreases self.entries@.len() - i,
        {
            if self.entries[i].0 == wanted {
                let ghost e = self.entries@;
                assert(e[i as int].0@ == key@);
                let ghost j = choose|j: int| 0 <= j < e.len() && #[trigger] e[j].0@ == key@;
                assert(j == i);
                return Some(&self.entries[i].1);
            }
            i += 1;
        }
        None
    }

    /// The number of entries.
    pub fn len(&self) -> (r: usize)
        ensures
            r == self.spec_map().len(),
    {
        proof {
            use_type_invariant(self);
            lemma_entries_len(self.entries@);
        }
        self.entries.len()
    }
}

proof fn lemma_entries_len(e: Seq<(String, String)>)
    requires
        unique_keys(e),
    ensures
        entries_map(e).len() == e.len(),
    decreases e.len(),
{
    let keys = e.map_values(|p: (String, String)| p.0@);
    assert(entries_map(e).dom() =~= keys.to_set()) by {
        assert forall|k: Seq<char>| #[trigger] entries_map(e).dom().contains(k) == keys.to_set().contains(k) by {
            if exists|i: int| 0 <= i < e.len() && #[trigger] e[i].0@ == k {
                let i = choose|i: int| 0 <= i < e.len() && #[trigger] e[i].0@ == k;
                assert(keys[i] == k);
            }
            if keys.contains(k) {
                let i = choose|i: int| 0 <= i < keys.len() && keys[i] == k;
                assert(e[i].0@ == k);
            }
        }
    }
    assert(keys.no_duplicates()) by {
        assert forall|i: int, j: int| 0 <= i < keys.len() && 0 <= j < keys.len() && i != j implies keys[i]
            != keys[j] by {
            assert(e[i].0@ != e[j].0@);
        }
    }
    keys.unique_seq_to_set();
}

fn read_u16(b: &[u8], off: usize) -> (r: usize)
    requires
        off + 2 <= b@.len(),
    ensures
        r == le16(b@, off as int),
{
    b[off] as usize + 256 * (b[off + 1] as usize)
}

fn read_u32(b: &[u8], off: usize) -> (r: usize)
    requires
        off + 4 <= b@.len(),
    ensures
        r == le32(b@, off as int),
{
    let v: u64 = b[off] as u64 + 256 * (b[off + 1] as u64) + 65536 * (b[off + 2] as u64)
        + 16777216 * (b[off + 3] as u64);
    assert(v <= 0xffff_ffff);
    assert(usize::MAX >= 0xffff_ffff);
    v as usize
}

fn find_zero(b: &[u8], from: usize) -> (r: Option<usize>)
    ensures
        r matches Some(i) ==> first_zero(b@, from as int) == Some(i as int),
        r is None ==> first_zero(b@, from as int) is None,
{
    let mut i = from;
    while i < b.len()
        invariant
            from <= i,
            first_zero(b@, from as int) == first_zero(b@, i as int),
        decreases b@.len() - i,
    {
        if b[i] == 0 {
            return Some(i);
        }
        i += 1;
    }
    None
}

/// Reads the UTF-8 string entries (format `0x0204`) of a `PARAM.SFO` file.
pub fn parse_strings(bytes: &[u8]) -> (r: Result<SfoStrings>)
    ensures
        r matches Ok(m) ==> spec_parse_sfo(bytes@) == Ok::<Map<Seq<char>, Seq<char>>, Seq<char>>(
            m.spec_map(),
        ),
        r matches Err(e) ==> e matches PipelineError::Message(m) && spec_parse_sfo(bytes@) == Err::<
            Map<Seq<char>, Seq<char>>,
            Seq<char>,
        >(m@),
{
    let n = bytes.len();
    if n < 20 || !(bytes[0] == 0 && bytes[1] == 0x50 && bytes[2] == 0x53 && bytes[3] == 0x46) {
        proof {
            if bytes@.len() >= 20 {
                if bytes@.take(4) == sfo_magic() {
                    assert(bytes@.take(4)[0] == bytes@[0]);
                    assert(bytes@.take(4)[1] == bytes@[1]);
                    assert(bytes@.take(4)[2] == bytes@[2]);
                    assert(bytes@.take(4)[3] == bytes@[3]);
                }
            }
        }
        return Err(message("PARAM.SFO has an invalid header"));
    }
    assert(bytes@.take(4) =~= sfo_magic());
    let key_table = read_u32(bytes, 8);
    let data_table = read_u32(bytes, 12);
    let count = read_u32(bytes, 16);
    let index_end = match count.checked_mul(16) {
        Some(v) => match v.checked_add(20) {
            Some(e) => e,
            None => {
                return Err(message("PARAM.SFO index overflow"));
            },
        },
        None => {
            return Err(message("PARAM.SFO index overflow"));
        },
    };
    if index_end > n || key_table > n || data_table > n {
        return Err(message("PARAM.SFO tables are outside the file"));
    }
    let mut strings = SfoStrings::new();
    let mut index: usize = 0;
    while index < count
        invariant
            n == bytes@.len(),
            index <= count,
            20 + 16 * count <= n,
            key_table == le32(bytes@, 8),
            data_table == le32(bytes@, 12),
            count == le32(bytes@, 16),
            key_table <= n,
            data_table <= n,
            spec_parse_sfo(bytes@) == sfo_entries(
                bytes@,
                key_table as int,
                data_table as int,
                count as int,
                index as int,
                strings.spec_map(),
            ),
        decreases count - index,
    {
        let offset = 20 + index * 16;
        let key_offset = read_u16(bytes, offset);
        let format = read_u16(bytes, offset + 2);
        let data_length = read_u32(bytes, offset + 4);
        let data_offset = read_u32(bytes, offset + 12);
        if format != 0x0204 {
            index += 1;
            continue;
        }
        let key_start = match key_table.checked_add(key_offset) {
            Some(v) => v,
            None => {
                return Err(message("PARAM.SFO key overflow"));
            },
        };
        let data_start = match data_table.checked_add(data_offset) {
            Some(v) => v,
            None => {
                return Err(message("PARAM.SFO data overflow"));
            },
        };
        let data_end = match data_start.checked_add(data_length) {
            Some(v) => v,
            None => {
                return Err(message("PARAM.SFO value overflow"));
            },
        };
        if key_start >= n || data_end > n {
            return Err(message("PARAM.SFO entry is outside the file"));
        }
        let key_end = match find_zero(bytes, key_start) {
            Some(e) => e,
            None => {
                return Err(message("PARAM.SFO key is unterminated"));
            },
        };
        proof {
            crate::sfo::lemma_first_zero_bounds(bytes@, key_start as int);
        }
        let value_slice = vstd::slice::slice_subrange(bytes, data_start, data_end);
        let value_length = match find_zero(value_slice, 0) {
            Some(l) => l,
            None => value_slice.len(),
        };
        proof {
            lemma_first_zero_bounds(value_slice@, 0);
        }
        let key_bytes = vstd::slice::slice_subrange(bytes, key_start, key_end);
        let value_part = vstd::slice::slice_subrange(value_slice, 0, value_length);
        assert(value_part@ =~= value_bytes(bytes@.subrange(data_start as int, data_end as int)));
        let key = match utf8_text(key_bytes) {
            Some(k) => k,
            None => {
                return Err(message("PARAM.SFO key is not UTF-8"));
            },
        };
        let value = match utf8_text(value_part) {
            Some(v) => v,
            None => {
                return Err(message_with("PARAM.SFO value is not UTF-8: ", &chars_of(key.as_str())));
            },
        };
        strings.insert(key, value);
        index += 1;
    }
    Ok(strings)
}

proof fn lemma_first_zero_bounds(b: Seq<u8>, from: int)
    requires
        0 <= from,
    ensures
        first_zero(b, from) matches Some(i) ==> from <= i < b.len() && b[i] == 0,
    decreases b.len() - from,
{
    if from < b.len() && b[from] != 0 {
        lemma_first_zero_bounds(b, from + 1);
    }
}


/// The string entry that index entry `j` describes, when it is one (format `0x0204`) and its
/// key and value lie in the file: the key up to its zero byte and the value up to its
/// first zero byte, decoded as UTF-8.
pub open spec fn string_entry(b: Seq<u8>, key_table: int, data_table: int, j: int) -> Option<
    (Seq<char>, Seq<char>),
> {
    let off = 20 + 16 * j;
    let key_start = key_table + le16(b, off);
    let data_start = data_table + le32(b, off + 12);
    let data_end = data_start + le32(b, off + 4);
    if le16(b, off + 2) != 0x0204 || key_start >= b.len() || data_end > b.len() {
        None
    } else {
        match first_zero(b, key_start) {
            None => None,
            Some(key_end) => Some(
                (
                    decode_utf8(b.subrange(key_start, key_end)),
                    decode_utf8(value_bytes(b.subrange(data_start, data_end))),
                ),
            ),
        }
    }
}

/// The key of the string entry at `j`.
pub open spec fn entry_key(b: Seq<u8>, key_table: int, data_table: int, j: int) -> Seq<char> {
    match string_entry(b, key_table, data_table, j) {
        Some((k, _)) => k,
        None => seq![],
    }
}

/// The value of the string entry at `j`.
pub open spec fn entry_value(b: Seq<u8>, key_table: int, data_table: int, j: int) -> Seq<char> {
    match string_entry(b, key_table, data_table, j) {
        Some((_, v)) => v,
        None => seq![],
    }
}

/// No string entry after `j` (and before `count`) has the key `k`.
pub open spec fn last_with_key(b: Seq<u8>, key_table: int, data_table: int, count: int, j: int, k: Seq<char>) -> bool {
    forall|l: int|
        j < l < count ==> !(#[trigger] string_entry(b, key_table, data_table, l) matches Some((k1, _)) && k1 == k)
}

/// What reading the entries from `i` on gives: each string entry's key maps to its value
/// (the last one for a key read twice), and keys that no entry from `i` on names keep what
/// they had.
proof fn lemma_sfo_entries_strings(
    b: Seq<u8>,
    key_table: int,
    data_table: int,
    count: int,
    i: int,
    acc: Map<Seq<char>, Seq<char>>,
)
    requires
        0 <= i <= count,
    ensures
        sfo_entries(b, key_table, data_table, count, i, acc) matches Ok(m) ==> {
            &&& forall|j: int|
                i <= j < count && (#[trigger] string_entry(b, key_table, data_table, j)) is Some
                    && last_with_key(b, key_table, data_table, count, j, entry_key(b, key_table, data_table, j))
                    ==> m.contains_key(entry_key(b, key_table, data_table, j))
                    && m[entry_key(b, key_table, data_table, j)] == entry_value(b, key_table, data_table, j)
            &&& forall|k: Seq<char>|
                acc.contains_key(k) && (forall|j: int| i <= j < count ==> !(#[trigger] string_entry(b, key_table, data_table, j) matches Some((k1, _)) && k1 == k))
                    ==> #[trigger] m.contains_key(k) && m[k] == acc[k]
            &&& forall|k: Seq<char>|
                #[trigger] m.contains_key(k) ==> acc.contains_key(k) || exists|j: int|
                    i <= j < count && string_entry(b, key_table, data_table, j) is Some
                        && #[trigger] entry_key(b, key_table, data_table, j) == k
        },
    decreases count - i,
{
    if i < count {
        let off = 20 + 16 * i;
        let key_start = key_table + le16(b, off);
        let data_start = data_table + le32(b, off + 12);
        let data_end = data_start + le32(b, off + 4);
        if let Ok(m) = sfo_entries(b, key_table, data_table, count, i, acc) {
            let next = if le16(b, off + 2) != 0x0204 {
                acc
            } else {
                let key_end = first_zero(b, key_start)->0;
                acc.insert(
                    decode_utf8(b.subrange(key_start, key_end)),
                    decode_utf8(value_bytes(b.subrange(data_start, data_end))),
                )
            };
            assert(sfo_entries(b, key_table, data_table, count, i + 1, next) == Ok::<
                Map<Seq<char>, Seq<char>>,
                Seq<char>,
            >(m));
            lemma_sfo_entries_strings(b, key_table, data_table, count, i + 1, next);
            let k = entry_key(b, key_table, data_table, i);
            if le16(b, off + 2) != 0x0204 {
                assert(string_entry(b, key_table, data_table, i) is None);
            } else {
                let key_end = first_zero(b, key_start)->0;
                let v = decode_utf8(value_bytes(b.subrange(data_start, data_end)));
                assert(string_entry(b, key_table, data_table, i) == Some((k, v)));
                assert(next == acc.insert(k, v));
                assert(entry_value(b, key_table, data_table, i) == v);
                if last_with_key(b, key_table, data_table, count, i, k) {
                    assert forall|j: int| i + 1 <= j < count implies !(#[trigger] string_entry(
                        b,
                        key_table,
                        data_table,
                        j,
                    ) matches Some((k1, _)) && k1 == k) by {}
                    assert(next.contains_key(k));
                    assert(m.contains_key(k) && m[k] == next[k]);
                }
            }
            assert forall|j: int|
                i <= j < count && (#[trigger] string_entry(b, key_table, data_table, j)) is Some
                    && last_with_key(b, key_table, data_table, count, j, entry_key(b, key_table, data_table, j))
                    implies m.contains_key(entry_key(b, key_table, data_table, j))
                    && m[entry_key(b, key_table, data_table, j)] == entry_value(b, key_table, data_table, j) by {
                if j > i {
                    assert(last_with_key(b, key_table, data_table, count, j, entry_key(b, key_table, data_table, j)));
                }
            }
            assert forall|k2: Seq<char>|
                acc.contains_key(k2) && (forall|j: int| i <= j < count ==> !(#[trigger] string_entry(b, key_table, data_table, j) matches Some((k1, _)) && k1 == k2))
                    implies #[trigger] m.contains_key(k2) && m[k2] == acc[k2] by {
                assert(!(string_entry(b, key_table, data_table, i) matches Some((k1, _)) && k1 == k2));
                assert forall|j: int| i + 1 <= j < count implies !(#[trigger] string_entry(
                    b,
                    key_table,
                    data_table,
                    j,
                ) matches Some((k1, _)) && k1 == k2) by {}
                if le16(b, off + 2) == 0x0204 {
                    assert(string_entry(b, key_table, data_table, i) is Some);
                    assert(k2 != k);
                }
                assert(next.contains_key(k2));
                assert(next[k2] == acc[k2]);
                assert(m.contains_key(k2));
                assert(m[k2] == next[k2]);
            }
            assert forall|k2: Seq<char>| #[trigger] m.contains_key(k2) implies acc.contains_key(k2) || exists|j: int|
                i <= j < count && string_entry(b, key_table, data_table, j) is Some
                    && #[trigger] entry_key(b, key_table, data_table, j) == k2 by {
                if !acc.contains_key(k2) {
                    if next.contains_key(k2) {
                        assert(le16(b, off + 2) == 0x0204);
                        assert(string_entry(b, key_table, data_table, i) is Some);
                        assert(entry_key(b, key_table, data_table, i) == k2);
                    } else {
                        let j = choose|j: int|
                            i + 1 <= j < count && string_entry(b, key_table, data_table, j) is Some
                                && #[trigger] entry_key(b, key_table, data_table, j) == k2;
                        assert(i <= j < count);
                    }
                }
            }
        }
    }
}

/// Reading a `PARAM.SFO` gives every string entry and nothing else: for each index entry of
/// format `0x0204` whose key and value lie in the file, the result maps its key to its value
/// (the last such entry for a key given twice), whatever entries of other formats stand
/// before or after it; and every key of the result is the key of such an entry.
pub proof fn lemma_sfo_string_entries(b: Seq<u8>)
    ensures
        spec_parse_sfo(b) matches Ok(m) ==> forall|j: int|
            0 <= j < le32(b, 16) && (#[trigger] string_entry(b, le32(b, 8), le32(b, 12), j)) is Some
                && last_with_key(b, le32(b, 8), le32(b, 12), le32(b, 16), j, entry_key(b, le32(b, 8), le32(b, 12), j))
                ==> m.contains_key(entry_key(b, le32(b, 8), le32(b, 12), j))
                && m[entry_key(b, le32(b, 8), le32(b, 12), j)] == entry_value(b, le32(b, 8), le32(b, 12), j),
        spec_parse_sfo(b) matches Ok(m) ==> forall|k: Seq<char>|
            #[trigger] m.contains_key(k) ==> exists|j: int|
                0 <= j < le32(b, 16) && string_entry(b, le32(b, 8), le32(b, 12), j) is Some
                    && #[trigger] entry_key(b, le32(b, 8), le32(b, 12), j) == k,
{
    if b.len() >= 20 && b.take(4) == sfo_magic() {
        lemma_sfo_entries_strings(b, le32(b, 8), le32(b, 12), le32(b, 16), 0, Map::empty());
    }
}


/// Index entry `j` can be read: it is not a string entry, or its key and value lie in the
/// file, its key is terminated, and both are UTF-8.
pub open spec fn entry_readable(b: Seq<u8>, key_table: int, data_table: int, j: int) -> bool {
    let off = 20 + 16 * j;
    let key_start = key_table + le16(b, off);
    let data_start = data_table + le32(b, off + 12);
    let data_end = data_start + le32(b, off + 4);
    if le16(b, off + 2) != 0x0204 {
        true
    } else {
        &&& key_start < b.len()
        &&& data_end <= b.len()
        &&& first_zero(b, key_start) matches Some(key_end)
        &&& valid_utf8(b.subrange(key_start, key_end))
        &&& valid_utf8(value_bytes(b.subrange(data_start, data_end)))
    }
}

/// Reading entries from `i` on succeeds when each of them can be read.
proof fn lemma_sfo_entries_ok(
    b: Seq<u8>,
    key_table: int,
    data_table: int,
    count: int,
    i: int,
    acc: Map<Seq<char>, Seq<char>>,
)
    requires
        0 <= i <= count,
        0 <= key_table,
        0 <= data_table,
        b.len() <= usize::MAX,
        forall|j: int| i <= j < count ==> #[trigger] entry_readable(b, key_table, data_table, j),
    ensures
        sfo_entries(b, key_table, data_table, count, i, acc) is Ok,
    decreases count - i,
{
    if i < count {
        let off = 20 + 16 * i;
        assert(entry_readable(b, key_table, data_table, i));
        assert(0 <= le16(b, off) && 0 <= le32(b, off + 12) && 0 <= le32(b, off + 4)) by {
            assert(0 <= b[off] && 0 <= b[off + 1]);
            assert(0 <= b[off + 12] && 0 <= b[off + 13] && 0 <= b[off + 14] && 0 <= b[off + 15]);
            assert(0 <= b[off + 4] && 0 <= b[off + 5] && 0 <= b[off + 6] && 0 <= b[off + 7]);
        }
        let key_start = key_table + le16(b, off);
        let data_start = data_table + le32(b, off + 12);
        let data_end = data_start + le32(b, off + 4);
        if le16(b, off + 2) != 0x0204 {
            lemma_sfo_entries_ok(b, key_table, data_table, count, i + 1, acc);
        } else {
            let key_end = first_zero(b, key_start)->0;
            lemma_sfo_entries_ok(
                b,
                key_table,
                data_table,
                count,
                i + 1,
                acc.insert(
                    decode_utf8(b.subrange(key_start, key_end)),
                    decode_utf8(value_bytes(b.subrange(data_start, data_end))),
                ),
            );
        }
    }
}

/// Reading a `PARAM.SFO` succeeds on every well-formed file: one with the magic header,
/// tables that lie in the file, and index entries that can each be read (entries of formats
/// other than `0x0204` need nothing).
pub proof fn lemma_sfo_well_formed_reads(b: Seq<u8>)
    requires
        b.len() <= usize::MAX,
        b.len() >= 20,
        b.take(4) == sfo_magic(),
        20 + 16 * le32(b, 16) <= b.len(),
        le32(b, 8) <= b.len(),
        le32(b, 12) <= b.len(),
        forall|j: int| 0 <= j < le32(b, 16) ==> #[trigger] entry_readable(b, le32(b, 8), le32(b, 12), j),
    ensures
        spec_parse_sfo(b) is Ok,
{
    assert(0 <= b[8] && 0 <= b[9] && 0 <= b[10] && 0 <= b[11]);
    assert(0 <= b[12] && 0 <= b[13] && 0 <= b[14] && 0 <= b[15]);
    assert(0 <= b[16] && 0 <= b[17] && 0 <= b[18] && 0 <= b[19]);
    lemma_sfo_entries_ok(b, le32(b, 8), le32(b, 12), le32(b, 16), 0, Map::empty());
}

} // verus!
