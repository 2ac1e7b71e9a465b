//! The deployment record of a Vita title: one line per deployed file with its CRC-32,
//! its size and its path, sorted by path.
use vstd::prelude::*;

use crate::config::{components, path_components};
use crate::numbers::{
    all_hex, decimal, decimal_chars, hex_digit, hex_value, hexadecimal_value, parse_hex_u32,
    parse_u64, spec_parse_hex_u32, spec_parse_u64,
};
use crate::order::{chars_less, lex_less};
use crate::text::{
    append_chars, chars_eq, chars_of, lines, spec_lines, spec_split_once, split_once, string_of,
    views,
};
use crate::vita::{entry_views, ArchiveEntry, EntryView};

verus! {

/// The last `width` hexadecimal digits of `n`, upper-case and zero-padded (`{:08X}` for a
/// width of eight).
pub open spec fn hex_fixed(n: nat, width: nat) -> Seq<char>
    decreases width,
{
    if width == 0 {
        seq![]
    } else {
        hex_fixed(n / 16, (width - 1) as nat).push(hex_digit((n % 16) as int, true))
    }
}

/// The last `width` hexadecimal digits of `n`.
fn hex_fixed_exec(n: u32, width: usize) -> (r: Vec<char>)
    ensures
        r@ == hex_fixed(n as nat, width as nat),
    decreases width,
{
    if width == 0 {
        Vec::new()
    } else {
        let mut v = hex_fixed_exec(n / 16, width - 1);
        let d = (n % 16) as u8;
        v.push(crate::numbers::hex_digit_char(d, true));
        v
    }
}

/// The CRC-32 of a file as the record writes it: eight upper-case hexadecimal digits.
pub open spec fn crc_text(crc: u32) -> Seq<char> {
    hex_fixed(crc as nat, 8)
}

/// Sixteen to the power `w`.
pub open spec fn pow16(w: nat) -> nat
    decreases w,
{
    if w == 0 {
        1
    } else {
        16 * pow16((w - 1) as nat)
    }
}

/// Fixed-width hexadecimal digits are hexadecimal digits, and read back give the number
/// when it fits in the width.
proof fn lemma_hex_fixed(n: nat, width: nat)
    requires
        n < pow16(width),
    ensures
        hex_fixed(n, width).len() == width,
        all_hex(hex_fixed(n, width)),
        hexadecimal_value(hex_fixed(n, width)) == n,
        forall|i: int| 0 <= i < width ==> #[trigger] hex_fixed(n, width)[i] != '+'
            && hex_fixed(n, width)[i] != '\t' && hex_fixed(n, width)[i] != '\n',
    decreases width,
{
    if width == 0 {
        assert(n == 0);
    } else {
        let p = pow16((width - 1) as nat);
        assert(n / 16 < p) by (nonlinear_arith)
            requires
                n < 16 * p,
        ;
        lemma_hex_fixed(n / 16, (width - 1) as nat);
        let d = (n % 16) as int;
        let h = hex_fixed(n, width);
        assert(h.drop_last() == hex_fixed(n / 16, (width - 1) as nat));
        assert(h.last() == hex_digit(d, true));
        assert(crate::text::is_hex(hex_digit(d, true)) && hex_value(hex_digit(d, true)) == d) by {
            if d < 10 {
                crate::numbers::lemma_digit_char(d);
            }
        }
        assert(n == (n / 16) * 16 + n % 16);
        assert forall|i: int| 0 <= i < width implies #[trigger] h[i] != '+' && h[i] != '\t' && h[i]
            != '\n' by {
            if i < width - 1 {
                assert(h[i] == hex_fixed(n / 16, (width - 1) as nat)[i]);
            } else {
                assert(crate::text::is_hex(h[i]));
            }
        }
        assert forall|i: int| 0 <= i < h.len() implies crate::text::is_hex(#[trigger] h[i]) by {
            if i < width - 1 {
                assert(h[i] == hex_fixed(n / 16, (width - 1) as nat)[i]);
            }
        }
    }
}

/// The rank of a path component in `Path`'s order: the root, then `.`, then `..`, then
/// names.
pub open spec fn component_rank(c: Seq<char>) -> int {
    if c == seq!['/'] {
        1
    } else if c == seq!['.'] {
        2
    } else if c == seq!['.', '.'] {
        3
    } else {
        4
    }
}

/// `Path`'s order of components: by rank, and names by their characters.
pub open spec fn component_less(a: Seq<char>, b: Seq<char>) -> bool {
    component_rank(a) < component_rank(b) || (component_rank(a) == component_rank(b)
        && component_rank(a) == 4 && lex_less(a, b))
}

/// `Path`'s order: its components compared one by one, a prefix first.
pub open spec fn components_less(a: Seq<Seq<char>>, b: Seq<Seq<char>>) -> bool
    decreases a.len(),
{
    if a.len() == 0 {
        b.len() > 0
    } else if b.len() == 0 {
        false
    } else if component_less(a[0], b[0]) {
        true
    } else if component_less(b[0], a[0]) {
        false
    } else {
        components_less(a.drop_first(), b.drop_first())
    }
}

/// Whether path `a` comes before path `b` (`Path::cmp`).
pub open spec fn path_before(a: Seq<char>, b: Seq<char>) -> bool {
    components_less(path_components(a), path_components(b))
}

/// The rank of a component.
fn rank_of(c: &Vec<char>) -> (r: u8)
    ensures
        r == component_rank(c@),
{
    if c.len() == 1 && c[0] == '/' {
        assert(c@ =~= seq!['/']);
        1
    } else if c.len() == 1 && c[0] == '.' {
        assert(c@ =~= seq!['.']);
        2
    } else if c.len() == 2 && c[0] == '.' && c[1] == '.' {
        assert(c@ =~= seq!['.', '.']);
        3
    } else {
        4
    }
}

/// Whether component `a` comes before component `b`.
fn component_before(a: &Vec<char>, b: &Vec<char>) -> (r: bool)
    ensures
        r == component_less(a@, b@),
{
    let ra = rank_of(a);
    let rb = rank_of(b);
    ra < rb || (ra == rb && ra == 4 && chars_less(a, b))
}

/// Whether path `a` comes before path `b`.
fn path_less(a: &String, b: &String) -> (r: bool)
    ensures
        r == path_before(a@, b@),
{
    let ca = components(a);
    let cb = components(b);
    let ghost sa = views(ca@);
    let ghost sb = views(cb@);
    let mut i: usize = 0;
    assert(sa.skip(0) =~= sa);
    assert(sb.skip(0) =~= sb);
    while i < ca.len() && i < cb.len()
        invariant
            i <= ca@.len(),
            i <= cb@.len(),
            sa == views(ca@),
            sb == views(cb@),
            sa == path_components(a@),
            sb == path_components(b@),
            path_before(a@, b@) == components_less(sa.skip(i as int), sb.skip(i as int)),
        decreases ca@.len() - i,
    {
        assert(sa.skip(i as int)[0] == ca@[i as int]@);
        assert(sb.skip(i as int)[0] == cb@[i as int]@);
        assert(sa.skip(i as int).drop_first() =~= sa.skip(i + 1));
        assert(sb.skip(i as int).drop_first() =~= sb.skip(i + 1));
        if component_before(&ca[i], &cb[i]) {
            return true;
        }
        if component_before(&cb[i], &ca[i]) {
            return false;
        }
        i += 1;
    }
    i == ca.len() && i < cb.len()
}

/// Inserts an entry after the trailing entries it does not come before.
pub open spec fn insert_entry(s: Seq<EntryView>, x: EntryView) -> Seq<EntryView>
    decreases s.len(),
{
    if s.len() == 0 {
        seq![x]
    } else if path_before(x.path, s.last().path) {
        insert_entry(s.drop_last(), x).push(s.last())
    } else {
        s.push(x)
    }
}

/// The entries sorted by path, entries with equal paths in their first order
/// (`sort_by` on `Path::cmp`).
pub open spec fn sort_entries(s: Seq<EntryView>) -> Seq<EntryView>
    decreases s.len(),
{
    if s.len() == 0 {
        seq![]
    } else {
        insert_entry(sort_entries(s.drop_last()), s.last())
    }
}

/// The entries at the given positions.
pub open spec fn at_positions(s: Seq<EntryView>, order: Seq<usize>) -> Seq<EntryView> {
    order.map_values(|k: usize| s[k as int])
}

/// The line of one file: CRC-32, size and path, tab-separated.
pub open spec fn entry_line(e: EntryView) -> Seq<char> {
    crc_text(e.crc32) + seq!['\t'] + decimal_chars(e.size as nat) + seq!['\t'] + e.path
}

/// The lines of the entries, each ended by a line feed.
pub open spec fn manifest_body(s: Seq<EntryView>) -> Seq<char>
    decreases s.len(),
{
    if s.len() == 0 {
        seq![]
    } else {
        entry_line(s[0]) + seq!['\n'] + manifest_body(s.drop_first())
    }
}

/// The deployment record of a title's files.
pub open spec fn spec_manifest_text(s: Seq<EntryView>) -> Seq<char> {
    manifest_body(sort_entries(s))
}

/// One more line at the end of a body.
proof fn lemma_body_push(s: Seq<EntryView>, x: EntryView)
    ensures
        manifest_body(s.push(x)) == manifest_body(s) + entry_line(x) + seq!['\n'],
    decreases s.len(),
{
    if s.len() == 0 {
        assert(s.push(x).drop_first() =~= Seq::<EntryView>::empty());
        assert(s.push(x)[0] == x);
        assert(manifest_body(Seq::<EntryView>::empty()) == Seq::<char>::empty());
        assert(manifest_body(s) == Seq::<char>::empty());
        assert(manifest_body(s.push(x)) =~= entry_line(x) + seq!['\n'] + Seq::<char>::empty());
        assert(manifest_body(s.push(x)) =~= manifest_body(s) + entry_line(x) + seq!['\n']);
    } else {
        assert(s.push(x).drop_first() =~= s.drop_first().push(x));
        lemma_body_push(s.drop_first(), x);
        assert(manifest_body(s.push(x)) =~= manifest_body(s) + entry_line(x) + seq!['\n']);
    }
}

/// Inserts the position `k` of `x` into positions sorted by path.
fn insert_position(entries: &Vec<ArchiveEntry>, order: &mut Vec<usize>, k: usize)
    requires
        k < entries@.len(),
        forall|j: int| 0 <= j < old(order)@.len() ==> #[trigger] old(order)@[j] < entries@.len(),
    ensures
        forall|j: int| 0 <= j < final(order)@.len() ==> #[trigger] final(order)@[j] < entries@.len(),
        at_positions(entry_views(entries@), final(order)@) == insert_entry(
            at_positions(entry_views(entries@), old(order)@),
            entry_views(entries@)[k as int],
        ),
{
    let ghost ev = entry_views(entries@);
    let ghost s = at_positions(ev, order@);
    let ghost x = ev[k as int];
    let mut p = order.len();
    assert(s.take(p as int) =~= s);
    assert(s.skip(p as int) =~= Seq::<EntryView>::empty());
    while p > 0 && path_less(&entries[k].path, &entries[order[p - 1]].path)
        invariant
            p <= order@.len(),
            order@ == old(order)@,
            k < entries@.len(),
            ev == entry_views(entries@),
            x == ev[k as int],
            s == at_positions(ev, order@),
            forall|j: int| 0 <= j < order@.len() ==> #[trigger] order@[j] < entries@.len(),
            insert_entry(s, x) == insert_entry(s.take(p as int), x) + s.skip(p as int),
        decreases p,
    {
        proof {
            let t = s.take(p as int);
            assert(t.drop_last() =~= s.take(p - 1));
            assert(t.last() == s[p - 1]);
            assert(s[p - 1] == ev[order@[p - 1] as int]);
            assert(insert_entry(s.take(p - 1), x).push(s[p - 1]) + s.skip(p as int) =~= insert_entry(
                s.take(p - 1),
                x,
            ) + s.skip(p - 1));
        }
        p -= 1;
    }
    proof {
        if p == 0 {
            assert(s.take(0) =~= Seq::<EntryView>::empty());
        } else {
            assert(s.take(p as int).last() == s[p - 1]);
            assert(s[p - 1] == ev[order@[p - 1] as int]);
        }
    }
    order.insert(p, k);
    assert(at_positions(ev, order@) =~= insert_entry(s.take(p as int), x) + s.skip(p as int));
}

/// The deployment record of a title's files: one line per file, sorted by path.
pub fn manifest_text(entries: &Vec<ArchiveEntry>) -> (r: String)
    ensures
        r@ == spec_manifest_text(entry_views(entries@)),
{
    let ghost ev = entry_views(entries@);
    let mut order: Vec<usize> = Vec::new();
    for k in 0..entries.len()
        invariant
            ev == entry_views(entries@),
            forall|j: int| 0 <= j < order@.len() ==> #[trigger] order@[j] < entries@.len(),
            at_positions(ev, order@) == sort_entries(ev.take(k as int)),
    {
        assert(ev.take(k + 1).drop_last() =~= ev.take(k as int));
        insert_position(entries, &mut order, k);
    }
    assert(ev.take(entries@.len() as int) =~= ev);
    let ghost sorted = at_positions(ev, order@);
    let mut out: Vec<char> = Vec::new();
    for i in 0..order.len()
        invariant
            ev == entry_views(entries@),
            sorted == at_positions(ev, order@),
            forall|j: int| 0 <= j < order@.len() ==> #[trigger] order@[j] < entries@.len(),
            out@ == manifest_body(sorted.take(i as int)),
    {
        let e = &entries[order[i]];
        proof {
            assert(sorted[i as int] == e@);
            assert(sorted.take(i + 1) =~= sorted.take(i as int).push(e@));
            lemma_body_push(sorted.take(i as int), e@);
        }
        append_chars(&mut out, &hex_fixed_exec(e.crc32, 8));
        out.push('\t');
        append_chars(&mut out, &decimal(e.size));
        out.push('\t');
        append_chars(&mut out, &chars_of(e.path.as_str()));
        out.push('\n');
    }
    assert(sorted.take(order@.len() as int) =~= sorted);
    string_of(&out)
}

/// The fields of a record line as `splitn(3, '\t')` gives them: the text before the first
/// tab, the text between the first and the second tab (or after the first), and the rest
/// after the second tab.
pub open spec fn line_fields(line: Seq<char>) -> (Seq<char>, Option<Seq<char>>, Option<Seq<char>>) {
    match spec_split_once(line, seq!['\t']) {
        None => (line, None, None),
        Some((a, rest)) => match spec_split_once(rest, seq!['\t']) {
            None => (a, Some(rest), None),
            Some((b, c)) => (a, Some(b), Some(c)),
        },
    }
}

/// What one line of a deployment record says, or why it says nothing.
pub open spec fn parse_record_line(line: Seq<char>) -> Result<EntryView, Seq<char>> {
    let (f1, f2, f3) = line_fields(line);
    match spec_parse_hex_u32(f1) {
        None => Err("invalid Vita manifest CRC"@),
        Some(crc) => match f2 {
            None => Err("invalid Vita manifest size"@),
            Some(x) => match spec_parse_u64(x) {
                None => Err("invalid Vita manifest size"@),
                Some(size) => match f3 {
                    None => Err("invalid Vita manifest path"@),
                    Some(path) => Ok(EntryView { path, size, crc32: crc }),
                },
            },
        },
    }
}

/// What the lines of a deployment record say; the first line that says nothing decides.
pub open spec fn parse_record_lines(ls: Seq<Seq<char>>) -> Result<Seq<EntryView>, Seq<char>>
    decreases ls.len(),
{
    if ls.len() == 0 {
        Ok(seq![])
    } else {
        match parse_record_line(ls[0]) {
            Err(e) => Err(e),
            Ok(x) => match parse_record_lines(ls.drop_first()) {
                Err(e) => Err(e),
                Ok(r) => Ok(seq![x] + r),
            },
        }
    }
}

/// What a deployment record says.
pub open spec fn spec_parse_manifest(text: Seq<char>) -> Result<Seq<EntryView>, Seq<char>> {
    parse_record_lines(spec_lines(text))
}

/// Entries read so far, followed by what the rest says.
pub open spec fn prepend(a: Seq<EntryView>, r: Result<Seq<EntryView>, Seq<char>>) -> Result<
    Seq<EntryView>,
    Seq<char>,
> {
    match r {
        Ok(b) => Ok(a + b),
        Err(e) => Err(e),
    }
}

/// Reads one line of a deployment record.
fn parse_line(line: &[char]) -> (r: crate::error::Result<ArchiveEntry>)
    ensures
        match parse_record_line(line@) {
            Ok(e) => r matches Ok(x) && x@ == e,
            Err(m) => r matches Err(crate::error::PipelineError::Message(t)) && t@ == m,
        },
{
    let tab = vec!['\t'];
    assert(tab@ =~= seq!['\t']);
    let (f1, f2, f3): (Vec<char>, Option<Vec<char>>, Option<Vec<char>>) = match split_once(
        line,
        &tab,
    ) {
        None => (crate::text::copy_range(line, 0, line.len()), None, None),
        Some((a, rest)) => match split_once(&rest, &tab) {
            None => (a, Some(rest), None),
            Some((b, c)) => (a, Some(b), Some(c)),
        },
    };
    assert(line@.subrange(0, line@.len() as int) =~= line@);
    let crc = match parse_hex_u32(&f1) {
        None => return Err(crate::error::message("invalid Vita manifest CRC")),
        Some(c) => c,
    };
    let size = match &f2 {
        None => return Err(crate::error::message("invalid Vita manifest size")),
        Some(x) => match parse_u64(x) {
            None => return Err(crate::error::message("invalid Vita manifest size")),
            Some(v) => v,
        },
    };
    match &f3 {
        None => Err(crate::error::message("invalid Vita manifest path")),
        Some(p) => Ok(ArchiveEntry { path: string_of(p), size, crc32: crc }),
    }
}

/// Reads a deployment record.
pub fn parse_manifest(text: &str) -> (r: crate::error::Result<Vec<ArchiveEntry>>)
    ensures
        match spec_parse_manifest(text@) {
            Ok(s) => r matches Ok(v) && entry_views(v@) == s,
            Err(m) => r matches Err(crate::error::PipelineError::Message(t)) && t@ == m,
        },
{
    let ls = lines(&chars_of(text));
    let ghost l = views(ls@);
    let mut out: Vec<ArchiveEntry> = Vec::new();
    assert(l.skip(0) =~= l);
    assert(entry_views(out@) + Seq::<EntryView>::empty() =~= entry_views(out@));
    for i in 0..ls.len()
        invariant
            l == views(ls@),
            l == spec_lines(text@),
            parse_record_lines(l) == prepend(entry_views(out@), parse_record_lines(l.skip(i as int))),
    {
        let ghost rest = l.skip(i as int);
        assert(rest[0] == ls@[i as int]@);
        assert(rest.drop_first() =~= l.skip(i + 1));
        match parse_line(&ls[i]) {
            Err(e) => {
                return Err(e);
            },
            Ok(x) => {
                let ghost before = entry_views(out@);
                out.push(x);
                assert(entry_views(out@) =~= before.push(x@));
                proof {
                    match parse_record_lines(l.skip(i + 1)) {
                        Ok(b) => {
                            assert(before + (seq![x@] + b) =~= before.push(x@) + b);
                        },
                        Err(_) => {},
                    }
                }
            },
        }
    }
    assert(l.skip(ls@.len() as int) =~= Seq::<Seq<char>>::empty());
    assert(entry_views(out@) + Seq::<EntryView>::empty() =~= entry_views(out@));
    Ok(out)
}

/// A path that a record line keeps whole: no line feed in it, and no carriage return at
/// its end.
pub open spec fn recordable_path(p: Seq<char>) -> bool {
    &&& forall|i: int| 0 <= i < p.len() ==> #[trigger] p[i] != '\n'
    &&& !(p.len() > 0 && p.last() == '\r')
}

/// Every entry's path is recordable.
pub open spec fn all_recordable(s: Seq<EntryView>) -> bool {
    forall|i: int| 0 <= i < s.len() ==> recordable_path(#[trigger] s[i].path)
}

/// A record line reads back as the entry it was written from.
proof fn lemma_line_read(e: EntryView)
    requires
        recordable_path(e.path),
    ensures
        parse_record_line(entry_line(e)) == Ok::<EntryView, Seq<char>>(e),
        forall|i: int| 0 <= i < entry_line(e).len() ==> #[trigger] entry_line(e)[i] != '\n',
        crate::text::strip_cr(entry_line(e)) == entry_line(e),
{
    let h = crc_text(e.crc32);
    let d = decimal_chars(e.size as nat);
    let p = e.path;
    assert(pow16(8) == 4294967296) by {
        reveal_with_fuel(pow16, 9);
    }
    lemma_hex_fixed(e.crc32 as nat, 8);
    crate::numbers::lemma_decimal_round_trip(e.size as nat);
    crate::numbers::lemma_parse_u64_decimal(e.size);
    assert forall|i: int| 0 <= i < d.len() implies #[trigger] d[i] != '\t' && d[i] != '\n' by {
        assert(crate::text::is_digit(d[i]));
    }
    let line = entry_line(e);
    let rest = d + seq!['\t'] + p;
    assert(line =~= h + seq!['\t'] + rest);
    // the first tab ends the CRC
    crate::state::lemma_find_first(line, '\t', 8);
    assert(line.take(8) =~= h);
    assert(line.skip(9) =~= rest);
    // the second tab ends the size
    crate::state::lemma_find_first(rest, '\t', d.len() as int);
    assert(rest.take(d.len() as int) =~= d);
    assert(rest.skip(d.len() as int + 1) =~= p);
    assert(line_fields(line) == (h, Some(d), Some(p)));
    assert(crate::numbers::unsigned_digits(h) == h);
    assert(spec_parse_hex_u32(h) == Some(e.crc32));
    assert forall|i: int| 0 <= i < line.len() implies #[trigger] line[i] != '\n' by {
        if i < 8 {
            assert(line[i] == h[i]);
        } else if i == 8 {
        } else if i < 9 + d.len() {
            assert(line[i] == d[i - 9]);
        } else if i == 9 + d.len() {
        } else {
            assert(line[i] == p[i - 10 - d.len()]);
        }
    }
    if p.len() > 0 {
        assert(line.last() == p.last());
    } else {
        assert(line.last() == '\t');
    }
}

/// The lines of a body read back as its entries.
proof fn lemma_body_read(s: Seq<EntryView>)
    requires
        all_recordable(s),
    ensures
        parse_record_lines(spec_lines(manifest_body(s))) == Ok::<Seq<EntryView>, Seq<char>>(s),
    decreases s.len(),
{
    if s.len() == 0 {
        assert(manifest_body(s) == Seq::<char>::empty());
        assert(spec_lines(Seq::<char>::empty()) =~= Seq::<Seq<char>>::empty());
        assert(s =~= Seq::<EntryView>::empty());
    } else {
        let line = entry_line(s[0]);
        let rest = manifest_body(s.drop_first());
        let text = manifest_body(s);
        lemma_line_read(s[0]);
        assert(text =~= line + seq!['\n'] + rest);
        crate::state::lemma_find_first(text, '\n', line.len() as int);
        assert(text.take(line.len() as int) =~= line);
        assert(text.skip(line.len() as int + 1) =~= rest);
        assert(spec_lines(text) == seq![line] + spec_lines(rest));
        assert(all_recordable(s.drop_first())) by {
            assert forall|i: int| 0 <= i < s.drop_first().len() implies recordable_path(
                #[trigger] s.drop_first()[i].path,
            ) by {
                assert(s.drop_first()[i] == s[i + 1]);
            }
        }
        lemma_body_read(s.drop_first());
        assert((seq![line] + spec_lines(rest))[0] == line);
        assert((seq![line] + spec_lines(rest)).drop_first() =~= spec_lines(rest));
        assert(seq![s[0]] + s.drop_first() =~= s);
        let ls = spec_lines(text);
        assert(ls.len() > 0 && ls[0] == line && ls.drop_first() == spec_lines(rest));
        assert(parse_record_line(ls[0]) == Ok::<EntryView, Seq<char>>(s[0]));
        assert(parse_record_lines(ls) == Ok::<Seq<EntryView>, Seq<char>>(seq![s[0]] + s.drop_first()));
    }
}

/// Sorting keeps every entry recordable.
proof fn lemma_sorted_recordable(s: Seq<EntryView>)
    requires
        all_recordable(s),
    ensures
        all_recordable(sort_entries(s)),
    decreases s.len(),
{
    if s.len() > 0 {
        assert(all_recordable(s.drop_last())) by {
            assert forall|i: int| 0 <= i < s.drop_last().len() implies recordable_path(
                #[trigger] s.drop_last()[i].path,
            ) by {
                assert(s.drop_last()[i] == s[i]);
            }
        }
        lemma_sorted_recordable(s.drop_last());
        lemma_insert_recordable(sort_entries(s.drop_last()), s.last());
    }
}

/// Inserting a recordable entry keeps every entry recordable.
proof fn lemma_insert_recordable(s: Seq<EntryView>, x: EntryView)
    requires
        all_recordable(s),
        recordable_path(x.path),
    ensures
        all_recordable(insert_entry(s, x)),
    decreases s.len(),
{
    if s.len() > 0 && path_before(x.path, s.last().path) {
        assert(all_recordable(s.drop_last())) by {
            assert forall|i: int| 0 <= i < s.drop_last().len() implies recordable_path(
                #[trigger] s.drop_last()[i].path,
            ) by {
                assert(s.drop_last()[i] == s[i]);
            }
        }
        lemma_insert_recordable(s.drop_last(), x);
        let t = insert_entry(s.drop_last(), x);
        assert forall|i: int| 0 <= i < t.push(s.last()).len() implies recordable_path(
            #[trigger] t.push(s.last())[i].path,
        ) by {
            if i < t.len() {
                assert(t.push(s.last())[i] == t[i]);
            }
        }
    } else if s.len() > 0 {
        assert forall|i: int| 0 <= i < s.push(x).len() implies recordable_path(
            #[trigger] s.push(x)[i].path,
        ) by {
            if i < s.len() {
                assert(s.push(x)[i] == s[i]);
            }
        }
    } else {
        assert(seq![x][0] == x);
    }
}

/// What a deployment record says is what was written, sorted by path: for every set of
/// entries whose paths hold no line feed and do not end in a carriage return.
pub proof fn lemma_manifest_round_trip(s: Seq<EntryView>)
    requires
        all_recordable(s),
    ensures
        spec_parse_manifest(spec_manifest_text(s)) == Ok::<Seq<EntryView>, Seq<char>>(
            sort_entries(s),
        ),
{
    lemma_sorted_recordable(s);
    lemma_body_read(sort_entries(s));
}

} // verus!
