//! The PSP inventory: scanned ISO images grouped into variants (exact copies of one disc)
//! and the jobs made from them.
use vstd::prelude::*;

use crate::digest::{name_bytes, sha256_name, spec_sha256_hex, utf8_bytes};
use crate::domain::{
    artifact_views, job_views, ArtifactView, ComponentKind, Job, JobView, SourceArtifact,
};
use crate::manifest::{file_stem, numbered_output, spec_file_stem};
use crate::numbers::decimal;
use crate::order::{chars_less, lex_less};
use crate::text::{
    append_chars, chars_eq, chars_of, copy_range, eq_ignore_case, lit, spec_lower, spec_upper,
    string_of, to_upper,
};

verus! {

/// A scanned ISO image: its file name, size, embedded identity, and its content hash when
/// one is known.
#[derive(Clone, Debug, PartialEq, Eq)]
pub struct ScannedImage {
    pub name: String,
    pub size: u64,
    pub disc_id: String,
    pub title: String,
    pub hash: Option<String>,
}

/// A scanned image as plain values.
pub struct ImageView {
    pub name: Seq<char>,
    pub size: u64,
    pub disc_id: Seq<char>,
    pub title: Seq<char>,
    pub hash: Option<Seq<char>>,
}

impl View for ScannedImage {
    type V = ImageView;

    open spec fn view(&self) -> ImageView {
        ImageView {
            name: self.name@,
            size: self.size,
            disc_id: self.disc_id@,
            title: self.title@,
            hash: match self.hash {
                Some(h) => Some(h@),
                None => None,
            },
        }
    }
}

/// The views of scanned images.
pub open spec fn image_views(s: Seq<ScannedImage>) -> Seq<ImageView> {
    s.map_values(|x: ScannedImage| x@)
}

/// Two images are one variant: the same disc ID and size, and the same content hash.
pub open spec fn same_variant(a: ImageView, b: ImageView) -> bool {
    a.disc_id == b.disc_id && a.size == b.size && a.hash == b.hash
}

/// Another image has the same disc ID and size, so the content hash tells them apart.
pub open spec fn needs_hash(xs: Seq<ImageView>, i: int) -> bool {
    exists|j: int|
        0 <= j < xs.len() && j != i && (#[trigger] xs[j]).disc_id == xs[i].disc_id && xs[j].size
            == xs[i].size
}

/// Which images need their content hash: those that share their disc ID and size with
/// another image.
pub fn hashes_needed(images: &Vec<ScannedImage>) -> (r: Vec<bool>)
    ensures
        r@.len() == images@.len(),
        forall|i: int| 0 <= i < r@.len() ==> r@[i] == needs_hash(image_views(images@), i),
{
    let ghost xs = image_views(images@);
    let mut out: Vec<bool> = Vec::new();
    let mut i: usize = 0;
    while i < images.len()
        invariant
            i <= images@.len(),
            xs == image_views(images@),
            out@.len() == i,
            forall|k: int| 0 <= k < i ==> out@[k] == needs_hash(xs, k),
        decreases images@.len() - i,
    {
        let mut found = false;
        let mut j: usize = 0;
        while j < images.len()
            invariant
                j <= images@.len(),
                i < images@.len(),
                xs == image_views(images@),
                found == exists|k: int|
                    0 <= k < j && k != i && (#[trigger] xs[k]).disc_id == xs[i as int].disc_id
                        && xs[k].size == xs[i as int].size,
            decreases images@.len() - j,
        {
            assert(xs[j as int] == images@[j as int]@ && xs[i as int] == images@[i as int]@);
            if j != i && images[j].size == images[i].size && images[j].disc_id == images[i].disc_id {
                found = true;
            }
            j += 1;
        }
        out.push(found);
        i += 1;
    }
    out
}

/// The UTF-8 length of a name.
pub open spec fn byte_len(name: Seq<char>) -> nat {
    name_bytes(name).len()
}

/// The order of the sources of a variant: the longer (more descriptive) name first, then
/// by name.
pub open spec fn canonical_before(a: ImageView, b: ImageView) -> bool {
    byte_len(a.name) > byte_len(b.name) || (byte_len(a.name) == byte_len(b.name) && lex_less(
        a.name,
        b.name,
    ))
}

/// Inserts an image after the trailing images that it does not come before.
pub open spec fn insert_canonical(s: Seq<ImageView>, x: ImageView) -> Seq<ImageView>
    decreases s.len(),
{
    if s.len() == 0 {
        seq![x]
    } else if canonical_before(x, s.last()) {
        insert_canonical(s.drop_last(), x).push(s.last())
    } else {
        s.push(x)
    }
}

/// The images of a variant in canonical order.
pub open spec fn sort_canonical(s: Seq<ImageView>) -> Seq<ImageView>
    decreases s.len(),
{
    if s.len() == 0 {
        seq![]
    } else {
        insert_canonical(sort_canonical(s.drop_last()), s.last())
    }
}

/// Adds an image to the first class of images of its variant, or to a new class at the
/// end.
pub open spec fn class_insert(cs: Seq<Seq<ImageView>>, x: ImageView) -> Seq<Seq<ImageView>>
    decreases cs.len(),
{
    if cs.len() == 0 {
        seq![seq![x]]
    } else if cs[0].len() > 0 && same_variant(cs[0][0], x) {
        seq![cs[0].push(x)] + cs.drop_first()
    } else {
        seq![cs[0]] + class_insert(cs.drop_first(), x)
    }
}

/// The classes of images, one per variant, in order of first appearance.
pub open spec fn classes_of(xs: Seq<ImageView>) -> Seq<Seq<ImageView>>
    decreases xs.len(),
{
    if xs.len() == 0 {
        seq![]
    } else {
        class_insert(classes_of(xs.drop_last()), xs.last())
    }
}

/// A variant: a disc ID, its title (from its first source), and its sources.
pub struct VariantView {
    pub disc_id: Seq<char>,
    pub title: Seq<char>,
    pub sources: Seq<ImageView>,
}

/// The variant of a class of images.
pub open spec fn variant_of(c: Seq<ImageView>) -> VariantView {
    let sorted = sort_canonical(c);
    VariantView { disc_id: c[0].disc_id, title: sorted[0].title, sources: sorted }
}

/// The order of variants: by disc ID, then by the name of the first source.
pub open spec fn variant_before(a: VariantView, b: VariantView) -> bool {
    lex_less(a.disc_id, b.disc_id) || (a.disc_id == b.disc_id && lex_less(
        a.sources[0].name,
        b.sources[0].name,
    ))
}

/// Inserts a variant after the trailing variants that it does not come before.
pub open spec fn insert_variant(s: Seq<VariantView>, x: VariantView) -> Seq<VariantView>
    decreases s.len(),
{
    if s.len() == 0 {
        seq![x]
    } else if variant_before(x, s.last()) {
        insert_variant(s.drop_last(), x).push(s.last())
    } else {
        s.push(x)
    }
}

/// The variants of classes, sorted.
pub open spec fn sorted_variants(cs: Seq<Seq<ImageView>>) -> Seq<VariantView>
    decreases cs.len(),
{
    if cs.len() == 0 {
        seq![]
    } else {
        insert_variant(sorted_variants(cs.drop_last()), variant_of(cs.last()))
    }
}

/// The variants of scanned images: exact copies of one disc share a variant, whose sources
/// come in canonical order; variants come in order of disc ID and first source name.
pub open spec fn spec_group_variants(xs: Seq<ImageView>) -> Seq<VariantView> {
    sorted_variants(classes_of(xs))
}

/// A variant of scanned images.
#[derive(Clone, Debug, PartialEq, Eq)]
pub struct Variant {
    pub disc_id: String,
    pub title: String,
    pub sources: Vec<ScannedImage>,
}

impl View for Variant {
    type V = VariantView;

    open spec fn view(&self) -> VariantView {
        VariantView {
            disc_id: self.disc_id@,
            title: self.title@,
            sources: image_views(self.sources@),
        }
    }
}

/// The views of variants.
pub open spec fn variant_views(s: Seq<Variant>) -> Seq<VariantView> {
    s.map_values(|v: Variant| v@)
}

/// Whether `a` comes before `b` among a variant's sources.
fn is_canonical_before(a: &ScannedImage, b: &ScannedImage) -> (r: bool)
    ensures
        r == canonical_before(a@, b@),
{
    let la = utf8_bytes(&a.name).len();
    let lb = utf8_bytes(&b.name).len();
    if la != lb {
        return la > lb;
    }
    chars_less(&chars_of(a.name.as_str()), &chars_of(b.name.as_str()))
}

/// Inserts an image into canonically ordered sources.
fn insert_image(v: &mut Vec<ScannedImage>, x: ScannedImage)
    ensures
        image_views(final(v)@) == insert_canonical(image_views(old(v)@), x@),
{
    let ghost s = image_views(v@);
    let mut p = v.len();
    assert(s.take(p as int) =~= s);
    assert(s.skip(p as int) =~= Seq::<ImageView>::empty());
    while p > 0 && is_canonical_before(&x, &v[p - 1])
        invariant
            p <= v@.len(),
            v@ == old(v)@,
            s == image_views(v@),
            insert_canonical(s, x@) == insert_canonical(s.take(p as int), x@) + s.skip(p as int),
        decreases p,
    {
        proof {
            let t = s.take(p as int);
            assert(t.drop_last() =~= s.take(p - 1));
            assert(t.last() == s[p - 1]);
            assert(insert_canonical(s.take(p - 1), x@).push(s[p - 1]) + s.skip(p as int)
                =~= insert_canonical(s.take(p - 1), x@) + s.skip(p - 1));
        }
        p -= 1;
    }
    proof {
        if p == 0 {
            assert(s.take(0) =~= Seq::<ImageView>::empty());
        } else {
            assert(s.take(p as int).last() == s[p - 1]);
        }
    }
    v.insert(p, x);
    assert(image_views(v@) =~= insert_canonical(s.take(p as int), x@) + s.skip(p as int));
}

/// Sorts a class's images into canonical order.
fn sort_images(c: Vec<ScannedImage>) -> (r: Vec<ScannedImage>)
    ensures
        image_views(r@) == sort_canonical(image_views(c@)),
{
    let ghost cv = image_views(c@);
    let mut rest = c;
    let mut out: Vec<ScannedImage> = Vec::new();
    let mut i: usize = 0;
    let n = rest.len();
    assert(cv.len() == n);
    assert(cv.take(0) =~= Seq::<ImageView>::empty());
    assert(image_views(rest@) =~= cv.skip(0));
    while i < n
        invariant
            i <= n,
            n == cv.len(),
            image_views(rest@) == cv.skip(i as int),
            rest@.len() == n - i,
            image_views(out@) == sort_canonical(cv.take(i as int)),
        decreases n - i,
    {
        assert(image_views(rest@)[0] == rest@[0]@);
        let ghost before = rest@;
        let x = rest.remove(0);
        assert(x@ == cv[i as int]);
        assert(rest@ =~= before.drop_first());
        assert(image_views(rest@) =~= image_views(before).drop_first());
        assert(image_views(rest@) =~= cv.skip(i + 1 as int));
        insert_image(&mut out, x);
        assert(cv.take(i + 1 as int).drop_last() =~= cv.take(i as int));
        i += 1;
    }
    assert(cv.take(n as int) =~= cv);
    out
}

/// Whether two images are one variant.
fn is_same_variant(a: &ScannedImage, b: &ScannedImage) -> (r: bool)
    ensures
        r == same_variant(a@, b@),
{
    if a.size != b.size || !chars_eq(&chars_of(a.disc_id.as_str()), &chars_of(b.disc_id.as_str())) {
        return false;
    }
    match (&a.hash, &b.hash) {
        (Some(x), Some(y)) => chars_eq(&chars_of(x.as_str()), &chars_of(y.as_str())),
        (None, None) => true,
        _ => false,
    }
}

/// The views of classes of images.
pub open spec fn class_views(cs: Seq<Vec<ScannedImage>>) -> Seq<Seq<ImageView>> {
    cs.map_values(|c: Vec<ScannedImage>| image_views(c@))
}

/// Adds an image to its class.
fn insert_class(cs: &mut Vec<Vec<ScannedImage>>, x: ScannedImage)
    ensures
        class_views(final(cs)@) == class_insert(class_views(old(cs)@), x@),
{
    let ghost s = class_views(cs@);
    let mut p: usize = 0;
    assert(s.take(0) =~= Seq::<Seq<ImageView>>::empty());
    assert(s.skip(0) =~= s);
    while p < cs.len() && !(cs[p].len() > 0 && is_same_variant(&cs[p][0], &x))
        invariant
            p <= cs@.len(),
            cs@ == old(cs)@,
            s == class_views(cs@),
            class_insert(s, x@) == s.take(p as int) + class_insert(s.skip(p as int), x@),
        decreases cs@.len() - p,
    {
        proof {
            let t = s.skip(p as int);
            assert(t[0] == s[p as int]);
            assert(s[p as int] == image_views(cs@[p as int]@));
            if s[p as int].len() > 0 {
                assert(s[p as int][0] == cs@[p as int]@[0]@);
            }
            assert(t.drop_first() =~= s.skip(p + 1));
            assert(s.take(p as int) + (seq![t[0]] + class_insert(t.drop_first(), x@)) =~= s.take(
                p + 1,
            ) + class_insert(s.skip(p + 1), x@));
        }
        p += 1;
    }
    let ghost xv = x@;
    if p < cs.len() {
        proof {
            let t = s.skip(p as int);
            assert(t[0] == s[p as int]);
            assert(s[p as int] == image_views(cs@[p as int]@));
            assert(s[p as int][0] == cs@[p as int]@[0]@);
            assert(t.drop_first() =~= s.skip(p + 1));
        }
        let mut c = cs.remove(p);
        let ghost cv = image_views(c@);
        c.push(x);
        assert(image_views(c@) =~= cv.push(xv));
        cs.insert(p, c);
        assert(class_views(cs@) =~= s.take(p as int) + (seq![s[p as int].push(xv)] + s.skip(
            p + 1,
        )));
    } else {
        proof {
            assert(s.skip(p as int) =~= Seq::<Seq<ImageView>>::empty());
        }
        let c = vec![x];
        assert(image_views(c@) =~= seq![xv]);
        cs.push(c);
        assert(class_views(cs@) =~= s.take(p as int) + seq![seq![xv]]);
    }
}

/// Whether variant `a` comes before variant `b`.
fn is_variant_before(a: &Variant, b: &Variant) -> (r: bool)
    requires
        a.sources@.len() > 0,
        b.sources@.len() > 0,
    ensures
        r == variant_before(a@, b@),
{
    let da = chars_of(a.disc_id.as_str());
    let db = chars_of(b.disc_id.as_str());
    if chars_less(&da, &db) {
        return true;
    }
    if !chars_eq(&da, &db) {
        return false;
    }
    assert(a@.sources[0] == a.sources@[0]@ && b@.sources[0] == b.sources@[0]@);
    chars_less(&chars_of(a.sources[0].name.as_str()), &chars_of(b.sources[0].name.as_str()))
}

/// Inserts a variant into sorted variants.
fn insert_variant_exec(v: &mut Vec<Variant>, x: Variant)
    requires
        forall|k: int| 0 <= k < old(v)@.len() ==> (#[trigger] old(v)@[k]).sources@.len() > 0,
        x.sources@.len() > 0,
    ensures
        variant_views(final(v)@) == insert_variant(variant_views(old(v)@), x@),
        forall|k: int| 0 <= k < final(v)@.len() ==> (#[trigger] final(v)@[k]).sources@.len() > 0,
{
    let ghost s = variant_views(v@);
    let mut p = v.len();
    assert(s.take(p as int) =~= s);
    assert(s.skip(p as int) =~= Seq::<VariantView>::empty());
    while p > 0 && is_variant_before(&x, &v[p - 1])
        invariant
            p <= v@.len(),
            v@ == old(v)@,
            s == variant_views(v@),
            x.sources@.len() > 0,
            forall|k: int| 0 <= k < v@.len() ==> (#[trigger] v@[k]).sources@.len() > 0,
            insert_variant(s, x@) == insert_variant(s.take(p as int), x@) + s.skip(p as int),
        decreases p,
    {
        proof {
            let t = s.take(p as int);
            assert(t.drop_last() =~= s.take(p - 1));
            assert(t.last() == s[p - 1]);
            assert(insert_variant(s.take(p - 1), x@).push(s[p - 1]) + s.skip(p as int)
                =~= insert_variant(s.take(p - 1), x@) + s.skip(p - 1));
        }
        p -= 1;
    }
    proof {
        if p == 0 {
            assert(s.take(0) =~= Seq::<VariantView>::empty());
        } else {
            assert(s.take(p as int).last() == s[p - 1]);
        }
    }
    v.insert(p, x);
    assert(variant_views(v@) =~= insert_variant(s.take(p as int), x@) + s.skip(p as int));
}

/// Every class built by `class_insert` is non-empty.
proof fn lemma_classes_nonempty(xs: Seq<ImageView>)
    ensures
        forall|k: int| 0 <= k < classes_of(xs).len() ==> (#[trigger] classes_of(xs)[k]).len() > 0,
    decreases xs.len(),
{
    if xs.len() > 0 {
        lemma_classes_nonempty(xs.drop_last());
        lemma_class_insert_nonempty(classes_of(xs.drop_last()), xs.last());
    }
}

/// Adding to non-empty classes keeps them non-empty.
proof fn lemma_class_insert_nonempty(cs: Seq<Seq<ImageView>>, x: ImageView)
    requires
        forall|k: int| 0 <= k < cs.len() ==> (#[trigger] cs[k]).len() > 0,
    ensures
        forall|k: int|
            0 <= k < class_insert(cs, x).len() ==> (#[trigger] class_insert(cs, x)[k]).len() > 0,
    decreases cs.len(),
{
    if cs.len() > 0 && !(cs[0].len() > 0 && same_variant(cs[0][0], x)) {
        let rest = cs.drop_first();
        assert forall|k: int| 0 <= k < rest.len() implies (#[trigger] rest[k]).len() > 0 by {
            assert(rest[k] == cs[k + 1]);
        }
        lemma_class_insert_nonempty(rest, x);
        let r = class_insert(rest, x);
        assert forall|k: int| 0 <= k < r.len() + 1 implies (#[trigger] (seq![cs[0]] + r)[k]).len()
            > 0 by {
            if k > 0 {
                assert((seq![cs[0]] + r)[k] == r[k - 1]);
            }
        }
    } else if cs.len() > 0 {
        let r = seq![cs[0].push(x)] + cs.drop_first();
        assert forall|k: int| 0 <= k < r.len() implies (#[trigger] r[k]).len() > 0 by {
            if k > 0 {
                assert(r[k] == cs[k]);
            }
        }
    }
}

/// Sorting keeps the length of a class.
proof fn lemma_sort_len(s: Seq<ImageView>)
    ensures
        sort_canonical(s).len() == s.len(),
    decreases s.len(),
{
    if s.len() > 0 {
        lemma_sort_len(s.drop_last());
        lemma_insert_len(sort_canonical(s.drop_last()), s.last());
    }
}

/// Inserting adds one image.
proof fn lemma_insert_len(s: Seq<ImageView>, x: ImageView)
    ensures
        insert_canonical(s, x).len() == s.len() + 1,
    decreases s.len(),
{
    if s.len() > 0 && canonical_before(x, s.last()) {
        lemma_insert_len(s.drop_last(), x);
    }
}

/// Groups scanned images into variants: exact copies of one disc (same disc ID, size and
/// content hash) form one variant.
pub fn group_variants(images: Vec<ScannedImage>) -> (r: Vec<Variant>)
    ensures
        variant_views(r@) == spec_group_variants(image_views(images@)),
        forall|k: int| 0 <= k < r@.len() ==> (#[trigger] r@[k]).sources@.len() > 0,
{
    let ghost xs = image_views(images@);
    let mut rest = images;
    let n = rest.len();
    let mut classes: Vec<Vec<ScannedImage>> = Vec::new();
    let mut i: usize = 0;
    assert(image_views(rest@) =~= xs.skip(0));
    assert(class_views(classes@) =~= classes_of(xs.take(0)));
    while i < n
        invariant
            i <= n,
            n == xs.len(),
            image_views(rest@) == xs.skip(i as int),
            rest@.len() == n - i,
            class_views(classes@) == classes_of(xs.take(i as int)),
        decreases n - i,
    {
        assert(image_views(rest@)[0] == rest@[0]@);
        let ghost before = rest@;
        let x = rest.remove(0);
        assert(x@ == xs[i as int]);
        assert(rest@ =~= before.drop_first());
        assert(image_views(rest@) =~= image_views(before).drop_first());
        assert(image_views(rest@) =~= xs.skip(i + 1 as int));
        insert_class(&mut classes, x);
        assert(xs.take(i + 1 as int).drop_last() =~= xs.take(i as int));
        i += 1;
    }
    assert(xs.take(n as int) =~= xs);
    let ghost cs = class_views(classes@);
    proof {
        lemma_classes_nonempty(xs);
    }
    let mut variants: Vec<Variant> = Vec::new();
    let m = classes.len();
    let mut j: usize = 0;
    assert(class_views(classes@) =~= cs.skip(0));
    assert(variant_views(variants@) =~= sorted_variants(cs.take(0)));
    while j < m
        invariant
            j <= m,
            m == cs.len(),
            cs == classes_of(xs),
            forall|k: int| 0 <= k < cs.len() ==> (#[trigger] cs[k]).len() > 0,
            class_views(classes@) == cs.skip(j as int),
            classes@.len() == m - j,
            variant_views(variants@) == sorted_variants(cs.take(j as int)),
            forall|k: int| 0 <= k < variants@.len() ==> (#[trigger] variants@[k]).sources@.len() > 0,
        decreases m - j,
    {
        assert(class_views(classes@)[0] == image_views(classes@[0]@));
        let ghost before = classes@;
        let c = classes.remove(0);
        assert(image_views(c@) == cs[j as int]);
        assert(classes@ =~= before.drop_first());
        assert(class_views(classes@) =~= class_views(before).drop_first());
        assert(class_views(classes@) =~= cs.skip(j + 1 as int));
        assert(c@.len() > 0);
        let disc_id = c[0].disc_id.clone();
        assert(c@[0]@ == cs[j as int][0]);
        let sorted = sort_images(c);
        proof {
            lemma_sort_len(cs[j as int]);
        }
        assert(sorted@.len() > 0);
        assert(image_views(sorted@)[0] == sorted@[0]@);
        let title = sorted[0].title.clone();
        let v = Variant { disc_id, title, sources: sorted };
        assert(v@ == variant_of(cs[j as int]));
        insert_variant_exec(&mut variants, v);
        assert(cs.take(j + 1 as int).drop_last() =~= cs.take(j as int));
        j += 1;
    }
    assert(cs.take(m as int) =~= cs);
    variants
}

/// The number of variants of a disc.
pub open spec fn disc_count(vs: Seq<VariantView>, disc: Seq<char>) -> nat
    decreases vs.len(),
{
    if vs.len() == 0 {
        0
    } else {
        disc_count(vs.drop_last(), disc) + if vs.last().disc_id == disc {
            1nat
        } else {
            0nat
        }
    }
}

/// The number of earlier stems that match `stem` ignoring ASCII case.
pub open spec fn lower_count(stems: Seq<Seq<char>>, stem: Seq<char>) -> nat
    decreases stems.len(),
{
    if stems.len() == 0 {
        0
    } else {
        lower_count(stems.drop_last(), stem) + if spec_lower(stems.last()) == spec_lower(stem) {
            1nat
        } else {
            0nat
        }
    }
}

/// The name a variant's job is shown and written under: its first source's file stem, or
/// its title.
pub open spec fn variant_stem(v: VariantView) -> Seq<char> {
    match spec_file_stem(v.sources[0].name) {
        Some(st) => st,
        None => v.title,
    }
}

/// The ID of a variant's job: its disc ID, followed by eight hexadecimal digits of its
/// first source's name digest when other variants share the disc ID.
pub open spec fn variant_id(vs: Seq<VariantView>, v: VariantView) -> Seq<char> {
    if disc_count(vs, v.disc_id) == 1 {
        v.disc_id
    } else {
        v.disc_id + "-"@ + spec_sha256_hex(name_bytes(v.sources[0].name), false).take(8)
    }
}

/// The sources of a variant's job.
pub open spec fn variant_sources(v: VariantView) -> Seq<ArtifactView> {
    v.sources.map_values(
        |x: ImageView|
            ArtifactView {
                title_id: v.disc_id,
                expected_size: x.size,
                name: x.name,
                role: ComponentKind::Base,
            },
    )
}

/// The stems and jobs of the first `i` variants; a job whose ID is not `only` is left out
/// but still counts for the numbering of outputs.
pub open spec fn psp_jobs_upto(vs: Seq<VariantView>, only: Option<Seq<char>>, i: int) -> (
    Seq<Seq<char>>,
    Seq<JobView>,
)
    decreases i,
{
    if i <= 0 {
        (seq![], seq![])
    } else {
        let (stems, js) = psp_jobs_upto(vs, only, i - 1);
        let v = vs[i - 1];
        let stem = variant_stem(v);
        let id = variant_id(vs, v);
        let job = JobView {
            id,
            display_name: stem,
            output_name: numbered_output(stem, lower_count(stems, stem) + 1, ".chd"@),
            sources: variant_sources(v),
        };
        if only matches Some(o) && o != id {
            (stems.push(stem), js)
        } else {
            (stems.push(stem), js.push(job))
        }
    }
}

/// The jobs of the variants, `only` compared in upper case.
pub open spec fn spec_psp_jobs(vs: Seq<VariantView>, only: Option<Seq<char>>) -> Seq<JobView> {
    let o = match only {
        Some(x) => Some(spec_upper(x)),
        None => None,
    };
    psp_jobs_upto(vs, o, vs.len() as int).1
}

/// The number of variants of a disc.
fn count_disc(vs: &Vec<Variant>, disc: &[char]) -> (r: usize)
    ensures
        r == disc_count(variant_views(vs@), disc@),
{
    let mut count: usize = 0;
    for i in 0..vs.len()
        invariant
            count == disc_count(variant_views(vs@.take(i as int)), disc@),
            count <= i,
    {
        assert(variant_views(vs@.take(i + 1 as int)).drop_last() =~= variant_views(
            vs@.take(i as int),
        ));
        if chars_eq(&chars_of(vs[i].disc_id.as_str()), disc) {
            count += 1;
        }
    }
    assert(vs@.take(vs@.len() as int) =~= vs@);
    count
}

/// The number of earlier stems matching `stem` ignoring ASCII case.
fn count_lower(stems: &Vec<Vec<char>>, stem: &[char]) -> (r: usize)
    ensures
        r == lower_count(crate::text::views(stems@), stem@),
        r <= stems@.len(),
{
    let mut count: usize = 0;
    for i in 0..stems.len()
        invariant
            count == lower_count(crate::text::views(stems@.take(i as int)), stem@),
            count <= i,
    {
        assert(crate::text::views(stems@.take(i + 1 as int)).drop_last() =~= crate::text::views(
            stems@.take(i as int),
        ));
        if eq_ignore_case(&stems[i], stem) {
            count += 1;
        }
    }
    assert(stems@.take(stems@.len() as int) =~= stems@);
    count
}

/// The sources of a variant's job.
fn job_sources(disc_id: &String, images: Vec<ScannedImage>) -> (r: Vec<SourceArtifact>)
    ensures
        artifact_views(r@) == image_views(images@).map_values(
            |x: ImageView|
                ArtifactView {
                    title_id: disc_id@,
                    expected_size: x.size,
                    name: x.name,
                    role: ComponentKind::Base,
                },
        ),
{
    let ghost iv = image_views(images@);
    let mut rest = images;
    let n = rest.len();
    let mut out: Vec<SourceArtifact> = Vec::new();
    let mut i: usize = 0;
    assert(image_views(rest@) =~= iv.skip(0));
    while i < n
        invariant
            i <= n,
            n == iv.len(),
            rest@.len() == n - i,
            image_views(rest@) == iv.skip(i as int),
            artifact_views(out@) == iv.take(i as int).map_values(
                |x: ImageView|
                    ArtifactView {
                        title_id: disc_id@,
                        expected_size: x.size,
                        name: x.name,
                        role: ComponentKind::Base,
                    },
            ),
        decreases n - i,
    {
        assert(image_views(rest@)[0] == rest@[0]@);
        let ghost before = rest@;
        let x = rest.remove(0);
        assert(rest@ =~= before.drop_first());
        assert(image_views(rest@) =~= image_views(before).drop_first());
        assert(image_views(rest@) =~= iv.skip(i + 1 as int));
        let ghost xv = x@;
        assert(xv == iv[i as int]);
        let a = SourceArtifact {
            title_id: disc_id.clone(),
            expected_size: x.size,
            name: x.name,
            role: ComponentKind::Base,
        };
        assert(a@ == (ArtifactView {
            title_id: disc_id@,
            expected_size: xv.size,
            name: xv.name,
            role: ComponentKind::Base,
        }));
        let ghost prev = out@;
        out.push(a);
        assert(artifact_views(out@) =~= artifact_views(prev).push(a@));
        assert(iv.take(i + 1 as int) =~= iv.take(i as int).push(xv));
        assert(artifact_views(out@) =~= iv.take(i + 1 as int).map_values(
            |x: ImageView|
                ArtifactView {
                    title_id: disc_id@,
                    expected_size: x.size,
                    name: x.name,
                    role: ComponentKind::Base,
                },
        ));
        i += 1;
    }
    assert(iv.take(n as int) =~= iv);
    out
}

/// The jobs of the variants: one per variant, named after its first source, with a
/// numbered output when a name repeats (ignoring case); `only_job` keeps one job.
#[verifier::spinoff_prover]
#[verifier::rlimit(40)]
pub fn jobs_from_variants(variants: Vec<Variant>, only_job: Option<&str>) -> (r: Vec<Job>)
    requires
        forall|k: int| 0 <= k < variants@.len() ==> (#[trigger] variants@[k]).sources@.len() > 0,
    ensures
        job_views(r@) == spec_psp_jobs(variant_views(variants@), crate::wiiu::str_opt(only_job)),
{
    let ghost vs = variant_views(variants@);
    let only: Option<Vec<char>> = match only_job {
        Some(o) => Some(to_upper(&chars_of(o))),
        None => None,
    };
    let ghost o = crate::wiiu::chars_opt(only);
    let n = variants.len();
    let mut ids: Vec<Vec<char>> = Vec::new();
    let mut k: usize = 0;
    while k < n
        invariant
            k <= n,
            n == variants@.len(),
            vs == variant_views(variants@),
            ids@.len() == k,
            forall|q: int| 0 <= q < k ==> (#[trigger] ids@[q])@ == variant_id(vs, vs[q]),
            forall|q: int| 0 <= q < variants@.len() ==> (#[trigger] variants@[q]).sources@.len() > 0,
        decreases n - k,
    {
        let v = &variants[k];
        assert(vs[k as int] == v@);
        let disc = chars_of(v.disc_id.as_str());
        let count = count_disc(&variants, &disc);
        let id = if count == 1 {
            disc
        } else {
            let mut id = disc;
            append_chars(&mut id, &lit("-"));
            assert(v@.sources[0] == v.sources@[0]@);
            let digest = sha256_name(&v.sources[0].name, false);
            let short = copy_range(&digest, 0, 8);
            assert(short@ =~= digest@.take(8));
            append_chars(&mut id, &short);
            id
        };
        ids.push(id);
        k += 1;
    }
    let mut rest = variants;
    let mut stems: Vec<Vec<char>> = Vec::new();
    let mut jobs: Vec<Job> = Vec::new();
    let mut i: usize = 0;
    assert(variant_views(rest@) =~= vs.skip(0));
    assert(crate::text::views(stems@) =~= Seq::<Seq<char>>::empty());
    assert(job_views(jobs@) =~= Seq::<JobView>::empty());
    while i < n
        invariant
            i <= n,
            n == vs.len(),
            rest@.len() == n - i,
            variant_views(rest@) == vs.skip(i as int),
            ids@.len() == n,
            forall|q: int| 0 <= q < n ==> (#[trigger] ids@[q])@ == variant_id(vs, vs[q]),
            forall|q: int| 0 <= q < rest@.len() ==> (#[trigger] rest@[q]).sources@.len() > 0,
            stems@.len() == i,
            o == crate::wiiu::chars_opt(only),
            o == match crate::wiiu::str_opt(only_job) {
                Some(x) => Some(spec_upper(x)),
                None => None::<Seq<char>>,
            },
            psp_jobs_upto(vs, o, i as int) == (crate::text::views(stems@), job_views(jobs@)),
        decreases n - i,
    {
        assert(variant_views(rest@)[0] == rest@[0]@);
        let ghost before = rest@;
        let v = rest.remove(0);
        assert(rest@ =~= before.drop_first());
        assert(variant_views(rest@) =~= variant_views(before).drop_first());
        assert(variant_views(rest@) =~= vs.skip(i + 1 as int));
        assert(v@ == vs[i as int]);
        assert(v@.sources[0] == v.sources@[0]@);
        let name = v.sources[0].name.clone();
        let stem = match file_stem(&name) {
            Some(st) => st,
            None => chars_of(v.title.as_str()),
        };
        let count = count_lower(&stems, &stem) + 1;
        let mut output = stem.clone();
        if count != 1 {
            append_chars(&mut output, &lit("-"));
            append_chars(&mut output, &decimal(count as u64));
        }
        append_chars(&mut output, &lit(".chd"));
        let ghost before_stems = stems@;
        stems.push(stem.clone());
        assert(crate::text::views(stems@) =~= crate::text::views(before_stems).push(stem@));
        let id = &ids[i];
        let skip = match &only {
            Some(w) => !chars_eq(w, id),
            None => false,
        };
        if !skip {
            let ghost vv = v@;
            let sources = job_sources(&v.disc_id, v.sources);
            assert(artifact_views(sources@) =~= variant_sources(vv));
            let job = Job {
                id: string_of(id),
                display_name: string_of(&stem),
                output_name: string_of(&output),
                sources,
            };
            let ghost prev = jobs@;
            jobs.push(job);
            assert(job_views(jobs@) =~= job_views(prev).push(job@));
        }
        i += 1;
    }
    jobs
}

/// The jobs of scanned PSP images.
#[derive(Clone, Debug, Default, PartialEq, Eq)]
pub struct PspInventory {
    pub jobs: Vec<Job>,
}

impl PspInventory {
    /// The inventory of scanned images: exact copies of one disc share a job, and different
    /// images with one disc ID remain separate jobs. Images that share a disc ID and a size
    /// with another image must carry their content hash.
    pub fn scan(images: Vec<ScannedImage>, only_job: Option<&str>) -> (r: PspInventory)
        ensures
            job_views(r.jobs@) == spec_psp_jobs(
                spec_group_variants(image_views(images@)),
                crate::wiiu::str_opt(only_job),
            ),
    {
        let variants = group_variants(images);
        PspInventory { jobs: jobs_from_variants(variants, only_job) }
    }
}

/// What a cache file of an image records, when it is still valid for the image's size and
/// modification time: the disc ID (which also stands for the title) and the content hash
/// when one was recorded.
pub open spec fn spec_parse_cache(text: Seq<char>, size: u64, modified: u64) -> Option<
    (Seq<char>, Option<Seq<char>>),
> {
    let fields = crate::text::spec_split(crate::text::spec_trim_end(text), '\t');
    if !(3 <= fields.len() <= 4) || crate::numbers::spec_parse_u64(fields[0]) != Some(size)
        || crate::numbers::spec_parse_u64(fields[1]) != Some(modified)
        || !crate::psp::valid_disc_id(fields[2]) || (fields.len() == 4 && !(fields[3].len() == 64
        && crate::numbers::all_hex(fields[3]))) {
        None
    } else {
        Some(
            (
                fields[2],
                if fields.len() == 4 {
                    Some(fields[3])
                } else {
                    None
                },
            ),
        )
    }
}

/// Reads a cache file of an image, if it is still valid for its size and modification time.
pub fn parse_cache(text: &str, size: u64, modified: u64) -> (r: Option<
    (crate::psp::PspIdentity, Option<String>),
>)
    ensures
        match spec_parse_cache(text@, size, modified) {
            None => r is None,
            Some((id, hash)) => r matches Some((identity, h)) && identity.disc_id@ == id
                && identity.title@ == id && match h {
                Some(x) => hash == Some(x@),
                None => hash is None,
            },
        },
{
    let trimmed = crate::text::trim_end(&chars_of(text));
    let fields = crate::text::split_char(&trimmed, '\t');
    let ghost fv = crate::text::views(fields@);
    if fields.len() < 3 || fields.len() > 4 {
        return None;
    }
    assert(fv[0] == fields@[0]@ && fv[1] == fields@[1]@ && fv[2] == fields@[2]@);
    if crate::numbers::parse_u64(&fields[0]) != Some(size) || crate::numbers::parse_u64(&fields[1])
        != Some(modified) || !crate::psp::is_valid_disc_id(&fields[2]) {
        return None;
    }
    let hash = if fields.len() == 4 {
        let h = &fields[3];
        assert(fv[3] == h@);
        let mut ok = h.len() == 64;
        let mut k: usize = 0;
        while k < h.len()
            invariant
                k <= h@.len(),
                ok == (h@.len() == 64 && forall|j: int|
                    0 <= j < k ==> crate::text::is_hex(#[trigger] h@[j])),
            decreases h@.len() - k,
        {
            let c = h[k];
            if !(('0' <= c && c <= '9') || ('a' <= c && c <= 'f') || ('A' <= c && c <= 'F')) {
                ok = false;
            }
            k += 1;
        }
        if !ok {
            return None;
        }
        Some(string_of(h))
    } else {
        None
    };
    let id = string_of(&fields[2]);
    let identity = crate::psp::PspIdentity { disc_id: id.clone(), title: id };
    Some((identity, hash))
}

/// The content of an image's cache file.
pub fn cache_line(size: u64, modified: u64, disc_id: &str, hash: &Option<String>) -> (r: String)
    ensures
        r@ == crate::numbers::decimal_chars(size as nat) + "\t"@ + crate::numbers::decimal_chars(
            modified as nat,
        ) + "\t"@ + disc_id@ + match hash {
            Some(h) => "\t"@ + h@,
            None => Seq::<char>::empty(),
        } + "\n"@,
{
    let mut v = decimal(size);
    append_chars(&mut v, &lit("\t"));
    append_chars(&mut v, &decimal(modified));
    append_chars(&mut v, &lit("\t"));
    append_chars(&mut v, &chars_of(disc_id));
    match hash {
        Some(h) => {
            append_chars(&mut v, &lit("\t"));
            append_chars(&mut v, &chars_of(h.as_str()));
        },
        None => {
            assert(v@ =~= v@ + Seq::<char>::empty());
        },
    }
    append_chars(&mut v, &lit("\n"));
    string_of(&v)
}

/// The name of an image's cache file: the lowercase SHA-256 of its name, with `.tsv`.
pub fn cache_file_name(name: &String) -> (r: String)
    ensures
        r@ == spec_sha256_hex(name_bytes(name@), false) + ".tsv"@,
{
    let mut v = sha256_name(name, false);
    append_chars(&mut v, &lit(".tsv"));
    string_of(&v)
}


/// The first image of a class.
pub open spec fn head(c: Seq<ImageView>) -> ImageView {
    c[0]
}

/// A class is non-empty and all its images are copies of its first.
pub open spec fn class_ok(c: Seq<ImageView>) -> bool {
    c.len() > 0 && forall|a: int| 0 <= a < c.len() ==> same_variant(#[trigger] c[a], head(c))
}

/// Every class is sound, and the first images of two classes are never copies.
pub open spec fn classes_ok(cs: Seq<Seq<ImageView>>) -> bool {
    &&& forall|c: int| 0 <= c < cs.len() ==> class_ok(#[trigger] cs[c])
    &&& forall|c: int, d: int|
        0 <= c < cs.len() && 0 <= d < cs.len() && c != d ==> !same_variant(
            head(#[trigger] cs[c]),
            head(#[trigger] cs[d]),
        )
}

/// Every image lies in some class.
pub open spec fn covers(cs: Seq<Seq<ImageView>>, xs: Seq<ImageView>) -> bool {
    forall|k: int|
        0 <= k < xs.len() ==> exists|c: int| 0 <= c < cs.len() && cs[c].contains(#[trigger] xs[k])
}

/// Every image of a class is one of the images.
pub open spec fn within(cs: Seq<Seq<ImageView>>, xs: Seq<ImageView>) -> bool {
    forall|c: int, a: int| 0 <= c < cs.len() && 0 <= a < cs[c].len() ==> xs.contains(#[trigger] cs[c][a])
}

/// Adding an image puts it into the first class of its copies, or into a new class.
proof fn lemma_class_insert_shape(cs: Seq<Seq<ImageView>>, x: ImageView)
    requires
        forall|k: int| 0 <= k < cs.len() ==> (#[trigger] cs[k]).len() > 0,
    ensures
        (exists|i: int|
            0 <= i < cs.len() && same_variant(head(cs[i]), x) && class_insert(cs, x) == cs.update(
                i,
                cs[i].push(x),
            )) || ((forall|j: int| 0 <= j < cs.len() ==> !same_variant(head(#[trigger] cs[j]), x))
            && class_insert(cs, x) == cs.push(seq![x])),
    decreases cs.len(),
{
    if cs.len() == 0 {
        assert(class_insert(cs, x) =~= cs.push(seq![x]));
    } else if same_variant(cs[0][0], x) {
        assert(class_insert(cs, x) =~= cs.update(0, cs[0].push(x)));
    } else {
        let rest = cs.drop_first();
        assert forall|k: int| 0 <= k < rest.len() implies (#[trigger] rest[k]).len() > 0 by {
            assert(rest[k] == cs[k + 1]);
        }
        lemma_class_insert_shape(rest, x);
        let r = class_insert(rest, x);
        if exists|i: int|
            0 <= i < rest.len() && same_variant(head(rest[i]), x) && r == rest.update(i, rest[i].push(x)) {
            let i = choose|i: int|
                0 <= i < rest.len() && same_variant(head(rest[i]), x) && r == rest.update(
                    i,
                    rest[i].push(x),
                );
            assert(rest[i] == cs[i + 1]);
            assert(class_insert(cs, x) =~= cs.update(i + 1, cs[i + 1].push(x)));
        } else {
            assert forall|j: int| 0 <= j < cs.len() implies !same_variant(head(#[trigger] cs[j]), x) by {
                if j > 0 {
                    assert(rest[j - 1] == cs[j]);
                    assert(!same_variant(head(rest[j - 1]), x));
                }
            }
            assert(class_insert(cs, x) =~= cs.push(seq![x]));
        }
    }
}

/// The classes of images are sound, hold every image, and hold nothing else.
proof fn lemma_classes(xs: Seq<ImageView>)
    ensures
        classes_ok(classes_of(xs)),
        covers(classes_of(xs), xs),
        within(classes_of(xs), xs),
    decreases xs.len(),
{
    broadcast use vstd::seq_lib::lemma_seq_contains_after_push;

    if xs.len() > 0 {
        let d = xs.drop_last();
        let x = xs.last();
        lemma_classes(d);
        lemma_classes_nonempty(d);
        let cs = classes_of(d);
        lemma_class_insert_shape(cs, x);
        let r = classes_of(xs);
        assert(r == class_insert(cs, x));
        assert(xs == d.push(x));
        if exists|i: int| 0 <= i < cs.len() && same_variant(head(cs[i]), x) && r == cs.update(i, cs[i].push(x)) {
            let i = choose|i: int|
                0 <= i < cs.len() && same_variant(head(cs[i]), x) && r == cs.update(i, cs[i].push(x));
            assert forall|c: int| 0 <= c < r.len() implies class_ok(#[trigger] r[c]) by {
                if c == i {
                    assert(head(r[c]) == head(cs[i]));
                    assert forall|a: int| 0 <= a < r[c].len() implies same_variant(#[trigger] r[c][a], head(r[c])) by {
                        if a < cs[i].len() {
                            assert(r[c][a] == cs[i][a]);
                        }
                    }
                } else {
                    assert(r[c] == cs[c]);
                }
            }
            assert forall|c: int, e: int|
                0 <= c < r.len() && 0 <= e < r.len() && c != e implies !same_variant(
                head(#[trigger] r[c]),
                head(#[trigger] r[e]),
            ) by {
                assert(head(r[c]) == head(cs[c]));
                assert(head(r[e]) == head(cs[e]));
            }
            assert forall|k: int| 0 <= k < xs.len() implies exists|c: int|
                0 <= c < r.len() && r[c].contains(#[trigger] xs[k]) by {
                if k < d.len() {
                    assert(xs[k] == d[k]);
                    let c = choose|c: int| 0 <= c < cs.len() && cs[c].contains(d[k]);
                    if c == i {
                        assert(r[c] == cs[i].push(x));
                    } else {
                        assert(r[c] == cs[c]);
                    }
                } else {
                    assert(xs[k] == x);
                    assert(r[i] == cs[i].push(x));
                }
            }
            assert forall|c: int, a: int| 0 <= c < r.len() && 0 <= a < r[c].len() implies xs.contains(
                #[trigger] r[c][a],
            ) by {
                if c == i && a == cs[i].len() {
                    assert(r[c][a] == x);
                } else {
                    assert(r[c][a] == cs[c][a]);
                    assert(d.contains(cs[c][a]));
                }
            }
        } else {
            assert(r == cs.push(seq![x]));
            assert forall|c: int| 0 <= c < r.len() implies class_ok(#[trigger] r[c]) by {
                if c < cs.len() {
                    assert(r[c] == cs[c]);
                } else {
                    assert(r[c] == seq![x]);
                }
            }
            assert forall|c: int, e: int|
                0 <= c < r.len() && 0 <= e < r.len() && c != e implies !same_variant(
                head(#[trigger] r[c]),
                head(#[trigger] r[e]),
            ) by {
                if c < cs.len() {
                    assert(r[c] == cs[c]);
                } else {
                    assert(head(r[c]) == x);
                }
                if e < cs.len() {
                    assert(r[e] == cs[e]);
                } else {
                    assert(head(r[e]) == x);
                }
            }
            assert forall|k: int| 0 <= k < xs.len() implies exists|c: int|
                0 <= c < r.len() && r[c].contains(#[trigger] xs[k]) by {
                if k < d.len() {
                    assert(xs[k] == d[k]);
                    let c = choose|c: int| 0 <= c < cs.len() && cs[c].contains(d[k]);
                    assert(r[c] == cs[c]);
                } else {
                    assert(xs[k] == x);
                    let c = cs.len() as int;
                    assert(r[c] == seq![x]);
                    assert(r[c][0] == x);
                }
            }
            assert forall|c: int, a: int| 0 <= c < r.len() && 0 <= a < r[c].len() implies xs.contains(
                #[trigger] r[c][a],
            ) by {
                if c < cs.len() {
                    assert(r[c][a] == cs[c][a]);
                    assert(d.contains(cs[c][a]));
                } else {
                    assert(r[c][a] == x);
                }
            }
        }
    }
}


/// Inserting an image adds it and keeps the others.
proof fn lemma_insert_canonical_contains(s: Seq<ImageView>, x: ImageView)
    ensures
        forall|e: ImageView| #[trigger] insert_canonical(s, x).contains(e) <==> (s.contains(e) || e == x),
    decreases s.len(),
{
    broadcast use vstd::seq_lib::lemma_seq_contains_after_push, vstd::seq_lib::lemma_seq_empty_contains_nothing;

    if s.len() == 0 {
        assert(insert_canonical(s, x) == Seq::<ImageView>::empty().push(x));
        assert(s == Seq::<ImageView>::empty());
    } else if canonical_before(x, s.last()) {
        let d = s.drop_last();
        lemma_insert_canonical_contains(d, x);
        assert(s == d.push(s.last()));
        assert forall|e: ImageView| #[trigger] insert_canonical(s, x).contains(e) <==> (s.contains(e) || e == x) by {
            assert(insert_canonical(s, x) == insert_canonical(d, x).push(s.last()));
            assert(insert_canonical(d, x).contains(e) <==> (d.contains(e) || e == x));
        }
    } else {
        assert forall|e: ImageView| #[trigger] insert_canonical(s, x).contains(e) <==> (s.contains(e) || e == x) by {
            assert(insert_canonical(s, x) == s.push(x));
        }
    }
}

/// Sorting a class keeps its images.
proof fn lemma_sort_contains(s: Seq<ImageView>)
    ensures
        forall|e: ImageView| #[trigger] sort_canonical(s).contains(e) <==> s.contains(e),
    decreases s.len(),
{
    broadcast use vstd::seq_lib::lemma_seq_contains_after_push;

    if s.len() > 0 {
        lemma_sort_contains(s.drop_last());
        lemma_insert_canonical_contains(sort_canonical(s.drop_last()), s.last());
        assert(s == s.drop_last().push(s.last()));
    }
}

/// Inserting a variant adds it and keeps the others.
proof fn lemma_insert_variant_contains(s: Seq<VariantView>, x: VariantView)
    ensures
        forall|e: VariantView| #[trigger] insert_variant(s, x).contains(e) <==> (s.contains(e) || e == x),
    decreases s.len(),
{
    broadcast use vstd::seq_lib::lemma_seq_contains_after_push, vstd::seq_lib::lemma_seq_empty_contains_nothing;

    if s.len() == 0 {
        assert(insert_variant(s, x) == Seq::<VariantView>::empty().push(x));
        assert(s == Seq::<VariantView>::empty());
    } else if variant_before(x, s.last()) {
        let d = s.drop_last();
        lemma_insert_variant_contains(d, x);
        assert(s == d.push(s.last()));
        assert forall|e: VariantView| #[trigger] insert_variant(s, x).contains(e) <==> (s.contains(e) || e == x) by {
            assert(insert_variant(s, x) == insert_variant(d, x).push(s.last()));
            assert(insert_variant(d, x).contains(e) <==> (d.contains(e) || e == x));
        }
    } else {
        assert forall|e: VariantView| #[trigger] insert_variant(s, x).contains(e) <==> (s.contains(e) || e == x) by {
            assert(insert_variant(s, x) == s.push(x));
        }
    }
}

/// The sorted variants are exactly the variants of the classes.
proof fn lemma_sorted_variants_contains(cs: Seq<Seq<ImageView>>)
    ensures
        forall|c: int| 0 <= c < cs.len() ==> sorted_variants(cs).contains(variant_of(#[trigger] cs[c])),
        forall|e: VariantView| #[trigger] sorted_variants(cs).contains(e) ==> exists|c: int|
            0 <= c < cs.len() && e == variant_of(cs[c]),
    decreases cs.len(),
{
    if cs.len() > 0 {
        let d = cs.drop_last();
        lemma_sorted_variants_contains(d);
        lemma_insert_variant_contains(sorted_variants(d), variant_of(cs.last()));
        assert forall|c: int| 0 <= c < cs.len() implies sorted_variants(cs).contains(
            variant_of(#[trigger] cs[c]),
        ) by {
            if c < d.len() {
                assert(cs[c] == d[c]);
                assert(sorted_variants(d).contains(variant_of(d[c])));
            }
        }
        assert forall|e: VariantView| #[trigger] sorted_variants(cs).contains(e) implies exists|c: int|
            0 <= c < cs.len() && e == variant_of(cs[c]) by {
            if sorted_variants(d).contains(e) {
                let c = choose|c: int| 0 <= c < d.len() && e == variant_of(d[c]);
                assert(cs[c] == d[c]);
            } else {
                assert(e == variant_of(cs[cs.len() - 1]));
            }
        }
    }
}

/// The variant of a sound class holds exactly the class's images, all copies of its first.
proof fn lemma_variant_of_class(c: Seq<ImageView>)
    requires
        class_ok(c),
    ensures
        variant_of(c).sources.len() > 0,
        forall|e: ImageView| #[trigger] variant_of(c).sources.contains(e) <==> c.contains(e),
        forall|a: int|
            0 <= a < variant_of(c).sources.len() ==> same_variant(
                #[trigger] variant_of(c).sources[a],
                head(c),
            ),
        variant_of(c).disc_id == head(c).disc_id,
{
    lemma_sort_contains(c);
    lemma_sort_len(c);
    let v = variant_of(c);
    assert forall|a: int| 0 <= a < v.sources.len() implies same_variant(#[trigger] v.sources[a], head(c)) by {
        assert(v.sources.contains(v.sources[a]));
        let m = choose|m: int| 0 <= m < c.len() && c[m] == v.sources[a];
        assert(same_variant(c[m], head(c)));
    }
}

/// Inserting a variant that is not present keeps the variants free of repeats.
proof fn lemma_insert_variant_distinct(s: Seq<VariantView>, x: VariantView)
    requires
        s.no_duplicates(),
        !s.contains(x),
    ensures
        insert_variant(s, x).no_duplicates(),
    decreases s.len(),
{
    broadcast use vstd::seq_lib::lemma_seq_contains_after_push;

    if s.len() == 0 {
        assert(insert_variant(s, x) == seq![x]);
    } else {
        let d = s.drop_last();
        let last = s.last();
        assert(s == d.push(last));
        if variant_before(x, last) {
            assert forall|i: int, j: int| 0 <= i < j < d.len() implies d[i] != d[j] by {
                assert(d[i] == s[i] && d[j] == s[j]);
            }
            assert(!d.contains(x));
            lemma_insert_variant_distinct(d, x);
            lemma_insert_variant_contains(d, x);
            let r = insert_variant(d, x);
            assert(!d.contains(last)) by {
                if d.contains(last) {
                    let k = choose|k: int| 0 <= k < d.len() && d[k] == last;
                    assert(s[k] == s[s.len() - 1]);
                }
            }
            assert(last != x);
            assert(!r.contains(last));
            let t = r.push(last);
            assert forall|i: int, j: int| 0 <= i < j < t.len() implies t[i] != t[j] by {
                if j == r.len() {
                    assert(t[j] == last);
                    assert(t[i] == r[i]);
                    assert(r.contains(r[i]));
                } else {
                    assert(t[i] == r[i] && t[j] == r[j]);
                }
            }
        } else {
            let t = s.push(x);
            assert forall|i: int, j: int| 0 <= i < j < t.len() implies t[i] != t[j] by {
                if j == s.len() {
                    assert(t[i] == s[i]);
                    assert(s.contains(s[i]));
                } else {
                    assert(t[i] == s[i] && t[j] == s[j]);
                }
            }
        }
    }
}

/// Classes that differ make variants that differ, so the sorted variants hold no repeats.
proof fn lemma_sorted_variants_distinct(cs: Seq<Seq<ImageView>>)
    requires
        classes_ok(cs),
    ensures
        sorted_variants(cs).no_duplicates(),
    decreases cs.len(),
{
    if cs.len() > 0 {
        let d = cs.drop_last();
        assert forall|c: int| 0 <= c < d.len() implies class_ok(#[trigger] d[c]) by {
            assert(d[c] == cs[c]);
        }
        assert forall|c: int, e: int|
            0 <= c < d.len() && 0 <= e < d.len() && c != e implies !same_variant(
            head(#[trigger] d[c]),
            head(#[trigger] d[e]),
        ) by {
            assert(d[c] == cs[c] && d[e] == cs[e]);
        }
        lemma_sorted_variants_distinct(d);
        lemma_sorted_variants_contains(d);
        let n = cs.len() - 1;
        let x = variant_of(cs[n]);
        assert(!sorted_variants(d).contains(x)) by {
            if sorted_variants(d).contains(x) {
                let c = choose|c: int| 0 <= c < d.len() && x == variant_of(d[c]);
                assert(d[c] == cs[c]);
                assert(class_ok(cs[c]) && class_ok(cs[n]));
                lemma_variant_of_class(cs[n]);
                lemma_variant_of_class(cs[c]);
                assert(cs[n].contains(head(cs[n])));
                assert(variant_of(cs[c]).sources.contains(head(cs[n])));
                let m = choose|m: int|
                    0 <= m < variant_of(cs[c]).sources.len() && variant_of(cs[c]).sources[m] == head(cs[n]);
                assert(same_variant(variant_of(cs[c]).sources[m], head(cs[c])));
                assert(!same_variant(head(cs[c]), head(cs[n])));
            }
        }
        assert(cs.last() == cs[n]);
        lemma_insert_variant_distinct(sorted_variants(d), x);
    }
}

/// Where a variant comes from: a class of the images.
pub open spec fn origin(cs: Seq<Seq<ImageView>>, v: VariantView) -> int {
    choose|c: int| 0 <= c < cs.len() && v == variant_of(cs[c])
}

/// No image is a source of two variants.
proof fn lemma_psp_variant_unique(xs: Seq<ImageView>)
    ensures
        ({
            let vs = spec_group_variants(xs);
            forall|k: int, v: int, w: int|
                0 <= k < xs.len() && 0 <= v < vs.len() && 0 <= w < vs.len() && (#[trigger] vs[v]).sources.contains(
                    #[trigger] xs[k],
                ) && (#[trigger] vs[w]).sources.contains(xs[k]) ==> v == w
        }),
{
    let cs = classes_of(xs);
    let vs = spec_group_variants(xs);
    lemma_classes(xs);
    lemma_sorted_variants_contains(cs);
    lemma_sorted_variants_distinct(cs);
    assert(vs == sorted_variants(cs));
    assert forall|v: int| 0 <= v < vs.len() implies {
        let c = origin(cs, #[trigger] vs[v]);
        &&& 0 <= c < cs.len()
        &&& vs[v] == variant_of(cs[c])
        &&& class_ok(cs[c])
    } by {
        assert(vs.contains(vs[v]));
    }
    assert forall|k: int, v: int, w: int|
        0 <= k < xs.len() && 0 <= v < vs.len() && 0 <= w < vs.len() && (#[trigger] vs[v]).sources.contains(
            #[trigger] xs[k],
        ) && (#[trigger] vs[w]).sources.contains(xs[k]) implies v == w by {
        let c = origin(cs, vs[v]);
        let e = origin(cs, vs[w]);
        lemma_variant_of_class(cs[c]);
        lemma_variant_of_class(cs[e]);
        let mc = choose|m: int| 0 <= m < vs[v].sources.len() && vs[v].sources[m] == xs[k];
        let me = choose|m: int| 0 <= m < vs[w].sources.len() && vs[w].sources[m] == xs[k];
        assert(same_variant(vs[v].sources[mc], head(cs[c])));
        assert(same_variant(vs[w].sources[me], head(cs[e])));
        if c != e {
            assert(!same_variant(head(cs[c]), head(cs[e])));
        }
        assert(vs[v] == vs[w]);
    }
}

/// Scanned images group into variants as exact copies: every image is a source of exactly
/// one variant, and no variant holds an image that was not scanned; the sources of a variant are
/// copies of each other (same disc ID, size and content hash) with the variant's disc ID;
/// and two images that are copies are sources of one variant.
pub proof fn lemma_psp_variants(xs: Seq<ImageView>)
    ensures
        ({
            let vs = spec_group_variants(xs);
            &&& forall|k: int|
                0 <= k < xs.len() ==> exists|v: int| 0 <= v < vs.len() && vs[v].sources.contains(#[trigger] xs[k])
            &&& forall|v: int, a: int|
                0 <= v < vs.len() && 0 <= a < vs[v].sources.len() ==> xs.contains(#[trigger] vs[v].sources[a])
            &&& forall|v: int| 0 <= v < vs.len() ==> (#[trigger] vs[v]).sources.len() > 0
            &&& forall|v: int, a: int, b: int|
                0 <= v < vs.len() && 0 <= a < vs[v].sources.len() && 0 <= b < vs[v].sources.len()
                    ==> same_variant(#[trigger] vs[v].sources[a], #[trigger] vs[v].sources[b])
            &&& forall|v: int, a: int|
                0 <= v < vs.len() && 0 <= a < vs[v].sources.len() ==> (#[trigger] vs[v].sources[a]).disc_id
                    == vs[v].disc_id
            &&& forall|k: int, l: int|
                0 <= k < xs.len() && 0 <= l < xs.len() && same_variant(#[trigger] xs[k], #[trigger] xs[l])
                    ==> exists|v: int|
                    0 <= v < vs.len() && vs[v].sources.contains(xs[k]) && vs[v].sources.contains(xs[l])
            &&& forall|k: int, v: int, w: int|
                0 <= k < xs.len() && 0 <= v < vs.len() && 0 <= w < vs.len() && (#[trigger] vs[v]).sources.contains(
                    #[trigger] xs[k],
                ) && (#[trigger] vs[w]).sources.contains(xs[k]) ==> v == w
        }),
{
    let cs = classes_of(xs);
    let vs = spec_group_variants(xs);
    lemma_classes(xs);
    lemma_sorted_variants_contains(cs);
    assert(vs == sorted_variants(cs));
    assert forall|v: int| 0 <= v < vs.len() implies {
        let c = origin(cs, #[trigger] vs[v]);
        &&& 0 <= c < cs.len()
        &&& vs[v] == variant_of(cs[c])
        &&& class_ok(cs[c])
    } by {
        assert(vs.contains(vs[v]));
    }
    assert forall|k: int|
        0 <= k < xs.len() implies exists|v: int| 0 <= v < vs.len() && vs[v].sources.contains(#[trigger] xs[k]) by {
        let c = choose|c: int| 0 <= c < cs.len() && cs[c].contains(xs[k]);
        assert(class_ok(cs[c]));
        lemma_variant_of_class(cs[c]);
        assert(vs.contains(variant_of(cs[c])));
        let v = choose|v: int| 0 <= v < vs.len() && vs[v] == variant_of(cs[c]);
        assert(vs[v].sources.contains(xs[k]));
    }
    assert forall|v: int, a: int|
        0 <= v < vs.len() && 0 <= a < vs[v].sources.len() implies xs.contains(#[trigger] vs[v].sources[a]) by {
        let c = origin(cs, vs[v]);
        lemma_variant_of_class(cs[c]);
        assert(vs[v].sources.contains(vs[v].sources[a]));
        let m = choose|m: int| 0 <= m < cs[c].len() && cs[c][m] == vs[v].sources[a];
        assert(xs.contains(cs[c][m]));
    }
    assert forall|v: int| 0 <= v < vs.len() implies (#[trigger] vs[v]).sources.len() > 0 by {
        lemma_variant_of_class(cs[origin(cs, vs[v])]);
    }
    assert forall|v: int, a: int, b: int|
        0 <= v < vs.len() && 0 <= a < vs[v].sources.len() && 0 <= b < vs[v].sources.len()
            implies same_variant(#[trigger] vs[v].sources[a], #[trigger] vs[v].sources[b]) by {
        lemma_variant_of_class(cs[origin(cs, vs[v])]);
    }
    assert forall|v: int, a: int|
        0 <= v < vs.len() && 0 <= a < vs[v].sources.len() implies (#[trigger] vs[v].sources[a]).disc_id
            == vs[v].disc_id by {
        lemma_variant_of_class(cs[origin(cs, vs[v])]);
    }
    assert forall|k: int, l: int|
        0 <= k < xs.len() && 0 <= l < xs.len() && same_variant(#[trigger] xs[k], #[trigger] xs[l])
            implies exists|v: int|
            0 <= v < vs.len() && vs[v].sources.contains(xs[k]) && vs[v].sources.contains(xs[l]) by {
        let c = choose|c: int| 0 <= c < cs.len() && cs[c].contains(xs[k]);
        let e = choose|e: int| 0 <= e < cs.len() && cs[e].contains(xs[l]);
        let mc = choose|m: int| 0 <= m < cs[c].len() && cs[c][m] == xs[k];
        let me = choose|m: int| 0 <= m < cs[e].len() && cs[e][m] == xs[l];
        assert(class_ok(cs[c]) && class_ok(cs[e]));
        assert(same_variant(cs[c][mc], head(cs[c])));
        assert(same_variant(cs[e][me], head(cs[e])));
        if c != e {
            assert(!same_variant(head(cs[c]), head(cs[e])));
        }
        lemma_variant_of_class(cs[c]);
        assert(vs.contains(variant_of(cs[c])));
        let v = choose|v: int| 0 <= v < vs.len() && vs[v] == variant_of(cs[c]);
        assert(vs[v].sources.contains(xs[k]));
        assert(vs[v].sources.contains(xs[l]));
    }
    lemma_psp_variant_unique(xs);
}

/// Without a job filter, the variants make one job each, in order: the job's ID is the
/// disc ID (followed, when other variants share it, by eight digits of the first source
/// name's digest), and its sources are the variant's images, each with the disc ID as its
/// title ID and the base role.
pub proof fn lemma_psp_jobs(vs: Seq<VariantView>, i: int)
    requires
        0 <= i <= vs.len(),
    ensures
        ({
            let js = psp_jobs_upto(vs, None, i).1;
            &&& js.len() == i
            &&& forall|k: int|
                0 <= k < i ==> {
                    &&& (#[trigger] js[k]).id == variant_id(vs, vs[k])
                    &&& js[k].sources.len() == vs[k].sources.len()
                    &&& forall|a: int|
                        0 <= a < js[k].sources.len() ==> {
                            &&& (#[trigger] js[k].sources[a]).title_id == vs[k].disc_id
                            &&& js[k].sources[a].role == ComponentKind::Base
                            &&& js[k].sources[a].name == vs[k].sources[a].name
                            &&& js[k].sources[a].expected_size == vs[k].sources[a].size
                        }
                }
        }),
    decreases i,
{
    if i > 0 {
        lemma_psp_jobs(vs, i - 1);
        let prev = psp_jobs_upto(vs, None, i - 1).1;
        let js = psp_jobs_upto(vs, None, i).1;
        assert forall|k: int| 0 <= k < i implies {
            &&& (#[trigger] js[k]).id == variant_id(vs, vs[k])
            &&& js[k].sources.len() == vs[k].sources.len()
            &&& forall|a: int|
                0 <= a < js[k].sources.len() ==> {
                    &&& (#[trigger] js[k].sources[a]).title_id == vs[k].disc_id
                    &&& js[k].sources[a].role == ComponentKind::Base
                    &&& js[k].sources[a].name == vs[k].sources[a].name
                    &&& js[k].sources[a].expected_size == vs[k].sources[a].size
                }
        } by {
            if k < i - 1 {
                assert(js[k] == prev[k]);
            }
        }
    }
}

/// What scanning images gives without a job filter: one job per group of exact copies.
/// Every image is a source of some job, under its name and size, with its disc ID as title
/// ID and the base role; two images are sources of one job exactly when they are copies
/// (same disc ID, size and content hash); and a job's ID is its disc ID, followed by eight
/// digits of its first source name's digest when other groups share the disc ID.
pub proof fn lemma_psp_scan(xs: Seq<ImageView>)
    ensures
        ({
            let vs = spec_group_variants(xs);
            let js = spec_psp_jobs(vs, None);
            &&& js.len() == vs.len()
            &&& forall|k: int|
                0 <= k < xs.len() ==> exists|v: int, a: int|
                    0 <= v < js.len() && 0 <= a < js[v].sources.len() && (#[trigger] js[v].sources[a]).name
                        == (#[trigger] xs[k]).name && js[v].sources[a].expected_size == xs[k].size
                        && js[v].sources[a].title_id == xs[k].disc_id
                        && js[v].sources[a].role == ComponentKind::Base
            &&& forall|k: int, l: int|
                0 <= k < xs.len() && 0 <= l < xs.len() ==> (same_variant(#[trigger] xs[k], #[trigger] xs[l])
                    <==> exists|v: int|
                    0 <= v < vs.len() && vs[v].sources.contains(xs[k]) && vs[v].sources.contains(xs[l]))
            &&& forall|k: int, v: int, w: int|
                0 <= k < xs.len() && 0 <= v < vs.len() && 0 <= w < vs.len() && (#[trigger] vs[v]).sources.contains(
                    #[trigger] xs[k],
                ) && (#[trigger] vs[w]).sources.contains(xs[k]) ==> v == w
            &&& forall|v: int| 0 <= v < js.len() ==> (#[trigger] js[v]).id == variant_id(vs, vs[v])
        }),
{
    let vs = spec_group_variants(xs);
    let js = spec_psp_jobs(vs, None);
    assert(js == psp_jobs_upto(vs, None, vs.len() as int).1);
    assert(js.len() == vs.len()) by {
        lemma_psp_jobs(vs, vs.len() as int);
    }
    assert forall|k: int| 0 <= k < xs.len() implies exists|v: int, a: int|
        0 <= v < js.len() && 0 <= a < js[v].sources.len() && (#[trigger] js[v].sources[a]).name
            == (#[trigger] xs[k]).name && js[v].sources[a].expected_size == xs[k].size
            && js[v].sources[a].title_id == xs[k].disc_id && js[v].sources[a].role == ComponentKind::Base by {
        lemma_psp_variants(xs);
        lemma_psp_jobs(vs, vs.len() as int);
        let v = choose|v: int| 0 <= v < vs.len() && vs[v].sources.contains(xs[k]);
        let a = choose|a: int| 0 <= a < vs[v].sources.len() && vs[v].sources[a] == xs[k];
        assert(js[v].sources[a].name == vs[v].sources[a].name);
        assert(vs[v].sources[a].disc_id == vs[v].disc_id);
    }
    assert forall|k: int, l: int|
        0 <= k < xs.len() && 0 <= l < xs.len() implies (same_variant(#[trigger] xs[k], #[trigger] xs[l])
            <==> exists|v: int|
            0 <= v < vs.len() && vs[v].sources.contains(xs[k]) && vs[v].sources.contains(xs[l])) by {
        lemma_psp_variants(xs);
        if exists|v: int| 0 <= v < vs.len() && vs[v].sources.contains(xs[k]) && vs[v].sources.contains(xs[l]) {
            let v = choose|v: int| 0 <= v < vs.len() && vs[v].sources.contains(xs[k]) && vs[v].sources.contains(xs[l]);
            let a = choose|a: int| 0 <= a < vs[v].sources.len() && vs[v].sources[a] == xs[k];
            let b = choose|b: int| 0 <= b < vs[v].sources.len() && vs[v].sources[b] == xs[l];
            assert(same_variant(vs[v].sources[a], vs[v].sources[b]));
        }
    }
    assert forall|k: int, v: int, w: int|
        0 <= k < xs.len() && 0 <= v < vs.len() && 0 <= w < vs.len() && (#[trigger] vs[v]).sources.contains(
            #[trigger] xs[k],
        ) && (#[trigger] vs[w]).sources.contains(xs[k]) implies v == w by {
        lemma_psp_variant_unique(xs);
    }
    assert forall|v: int| 0 <= v < js.len() implies (#[trigger] js[v]).id == variant_id(vs, vs[v]) by {
        lemma_psp_jobs(vs, vs.len() as int);
    }
}

/// A job has a source of this name.
pub open spec fn job_has_source(j: JobView, name: Seq<char>) -> bool {
    exists|a: int| 0 <= a < j.sources.len() && (#[trigger] j.sources[a]).name == name
}

/// Every scanned image lands in exactly one job: without a job filter, among the jobs of
/// images whose names are distinct (a name found in both the source and the done folder is
/// refused before scanning), exactly one job has a source of each image's name.
pub proof fn lemma_psp_image_in_one_job(xs: Seq<ImageView>)
    requires
        forall|k: int, l: int| 0 <= k < l < xs.len() ==> (#[trigger] xs[k]).name != (#[trigger] xs[l]).name,
    ensures
        ({
            let js = spec_psp_jobs(spec_group_variants(xs), None);
            forall|k: int|
                #![trigger xs[k]]
                0 <= k < xs.len() ==> {
                    &&& exists|v: int| 0 <= v < js.len() && job_has_source(#[trigger] js[v], xs[k].name)
                    &&& forall|v: int, w: int|
                        0 <= v < js.len() && 0 <= w < js.len() && job_has_source(#[trigger] js[v], xs[k].name)
                            && job_has_source(#[trigger] js[w], xs[k].name) ==> v == w
                }
        }),
{
    let vs = spec_group_variants(xs);
    let js = spec_psp_jobs(vs, None);
    assert(js == psp_jobs_upto(vs, None, vs.len() as int).1);
    lemma_psp_jobs(vs, vs.len() as int);
    lemma_psp_variants(xs);
    assert forall|k: int, v: int|
        0 <= k < xs.len() && 0 <= v < js.len() && job_has_source(#[trigger] js[v], (#[trigger] xs[k]).name)
            implies vs[v].sources.contains(xs[k]) by {
        let a = choose|a: int| 0 <= a < js[v].sources.len() && (#[trigger] js[v].sources[a]).name == xs[k].name;
        assert(js[v].sources[a].name == vs[v].sources[a].name);
        assert(xs.contains(vs[v].sources[a]));
        let m = choose|m: int| 0 <= m < xs.len() && xs[m] == vs[v].sources[a];
        if m != k {
            if m < k {
                assert(xs[m].name != xs[k].name);
            } else {
                assert(xs[k].name != xs[m].name);
            }
        }
        assert(vs[v].sources[a] == xs[k]);
    }
    assert forall|k: int| #![trigger xs[k]] 0 <= k < xs.len() implies {
        &&& exists|v: int| 0 <= v < js.len() && job_has_source(#[trigger] js[v], xs[k].name)
        &&& forall|v: int, w: int|
            0 <= v < js.len() && 0 <= w < js.len() && job_has_source(#[trigger] js[v], xs[k].name)
                && job_has_source(#[trigger] js[w], xs[k].name) ==> v == w
    } by {
        let v = choose|v: int| 0 <= v < vs.len() && vs[v].sources.contains(#[trigger] xs[k]);
        let a = choose|a: int| 0 <= a < vs[v].sources.len() && vs[v].sources[a] == xs[k];
        assert(js[v].sources[a].name == vs[v].sources[a].name);
        assert(job_has_source(js[v], xs[k].name));
        assert forall|v1: int, w1: int|
            0 <= v1 < js.len() && 0 <= w1 < js.len() && job_has_source(#[trigger] js[v1], xs[k].name)
                && job_has_source(#[trigger] js[w1], xs[k].name) implies v1 == w1 by {
            assert(vs[v1].sources.contains(xs[k]));
            assert(vs[w1].sources.contains(xs[k]));
        }
    }
}

} // verus!
