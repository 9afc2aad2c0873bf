//! Unix path arithmetic on raw path bytes: components, prefixes, joins and
//! the relative paths stored in the index.

use vstd::prelude::*;
use crate::text::{lossy_text, utf8_lossy};

verus! {

/// The `/` separator byte.
pub open spec fn is_sep(b: u8) -> bool {
    b == 47u8
}

/// The pieces of `p` between separators, including empty pieces.
pub open spec fn segments(p: Seq<u8>) -> Seq<Seq<u8>>
    decreases p.len(),
{
    if p.len() == 0 {
        seq![Seq::<u8>::empty()]
    } else {
        let r = segments(p.drop_last());
        if is_sep(p.last()) {
            r.push(Seq::<u8>::empty())
        } else {
            r.update(r.len() - 1, r.last().push(p.last()))
        }
    }
}

/// A piece that names a path component: non-empty and not `.`.
pub open spec fn keeps(seg: Seq<u8>) -> bool {
    seg.len() > 0 && seg != seq![46u8]
}

/// The kept pieces of a list of segments, in order.
pub open spec fn kept(segs: Seq<Seq<u8>>) -> Seq<Seq<u8>>
    decreases segs.len(),
{
    if segs.len() == 0 {
        Seq::empty()
    } else if keeps(segs.last()) {
        kept(segs.drop_last()).push(segs.last())
    } else {
        kept(segs.drop_last())
    }
}

/// The named components of a path (root, empty pieces and `.` removed).
pub open spec fn components(p: Seq<u8>) -> Seq<Seq<u8>> {
    kept(segments(p))
}

/// The path starts at the root.
pub open spec fn is_absolute(p: Seq<u8>) -> bool {
    p.len() > 0 && is_sep(p[0])
}

/// Component-wise prefix test, as `Path::starts_with`.
pub open spec fn path_starts_with(p: Seq<u8>, base: Seq<u8>) -> bool {
    &&& is_absolute(p) == is_absolute(base)
    &&& components(base).len() <= components(p).len()
    &&& components(p).subrange(0, components(base).len() as int) == components(base)
}

/// Component-wise equality, as `==` on `Path`.
pub open spec fn path_eq(a: Seq<u8>, b: Seq<u8>) -> bool {
    is_absolute(a) == is_absolute(b) && components(a) == components(b)
}

/// Components joined by single separators.
pub open spec fn join_parts(parts: Seq<Seq<u8>>) -> Seq<u8>
    decreases parts.len(),
{
    if parts.len() == 0 {
        Seq::empty()
    } else if parts.len() == 1 {
        parts[0]
    } else {
        join_parts(parts.drop_last()) + seq![47u8] + parts.last()
    }
}

/// The path relative to `base`: the remaining components joined by `/`.
pub open spec fn spec_strip_prefix(p: Seq<u8>, base: Seq<u8>) -> Option<Seq<u8>> {
    if path_starts_with(p, base) {
        Some(join_parts(components(p).skip(components(base).len() as int)))
    } else {
        None
    }
}

/// The component count as `Path::components().count()`, the root included.
pub open spec fn component_count(p: Seq<u8>) -> nat {
    components(p).len() + if is_absolute(p) { 1nat } else { 0nat }
}

/// `PathBuf::push`: an absolute `rel` replaces `base`; otherwise a separator
/// is inserted unless `base` is empty or already ends with one.
pub open spec fn spec_join(base: Seq<u8>, rel: Seq<u8>) -> Seq<u8> {
    if is_absolute(rel) {
        rel
    } else if base.len() == 0 || is_sep(base.last()) {
        base + rel
    } else {
        base + seq![47u8] + rel
    }
}

/// `Path::file_name`: the last component unless it is `..`.
pub open spec fn spec_file_name(p: Seq<u8>) -> Option<Seq<u8>> {
    let c = components(p);
    if c.len() == 0 || c.last() == seq![46u8, 46u8] {
        None
    } else {
        Some(c.last())
    }
}

proof fn lemma_segments_nonempty(p: Seq<u8>)
    ensures
        segments(p).len() >= 1,
    decreases p.len(),
{
    if p.len() > 0 {
        lemma_segments_nonempty(p.drop_last());
    }
}

/// The components of a path.
pub fn path_components(p: &[u8]) -> (r: Vec<Vec<u8>>)
    ensures
        r.deep_view() == components(p@),
{
    let mut out: Vec<Vec<u8>> = Vec::new();
    let mut cur: Vec<u8> = Vec::new();
    let mut i: usize = 0;
    proof {
        assert(p@.subrange(0, 0) =~= Seq::<u8>::empty());
    }
    while i < p.len()
        invariant
            i <= p@.len(),
            segments(p@.subrange(0, i as int)).len() >= 1,
            out.deep_view() == kept(segments(p@.subrange(0, i as int)).drop_last()),
            cur@ == segments(p@.subrange(0, i as int)).last(),
        decreases p.len() - i,
    {
        let ghost before = p@.subrange(0, i as int);
        let ghost after = p@.subrange(0, i + 1);
        proof {
            assert(after.drop_last() =~= before);
            lemma_segments_nonempty(before);
            lemma_segments_nonempty(after);
        }
        let b = p[i];
        let ghost out_before = out.deep_view();
        if b == 47u8 {
            if cur.len() > 0 && !(cur.len() == 1 && cur[0] == 46u8) {
                proof {
                    assert(keeps(cur@)) by {
                        if cur@ == seq![46u8] {
                            assert(cur@.len() == 1 && cur@[0] == 46u8);
                        }
                    }
                }
                let ghost pushed = cur@;
                proof {
                    assert(cur.deep_view() =~= cur@);
                }
                out.push(cur);
                proof {
                    assert(out.deep_view() =~= out_before.push(pushed));
                }
            } else {
                proof {
                    assert(!keeps(cur@)) by {
                        if cur@.len() > 0 {
                            assert(cur@ =~= seq![46u8]);
                        }
                    }
                }
            }
            cur = Vec::new();
            proof {
                assert(after.last() == b);
                assert(segments(after) == segments(before).push(Seq::<u8>::empty()));
                assert(segments(after).drop_last() =~= segments(before));
                assert(out.deep_view() =~= kept(segments(before)));
            }
        } else {
            cur.push(b);
            proof {
                assert(after.last() == b);
                let sb = segments(before);
                let sa = segments(after);
                assert(sa == sb.update(sb.len() - 1, sb.last().push(b)));
                assert(sa.drop_last() =~= sb.drop_last());
            }
        }
        i = i + 1;
    }
    proof {
        assert(p@.subrange(0, p@.len() as int) =~= p@);
        lemma_segments_nonempty(p@);
    }
    let ghost segs = segments(p@);
    let ghost out_before = out.deep_view();
    if cur.len() > 0 && !(cur.len() == 1 && cur[0] == 46u8) {
        proof {
            assert(keeps(cur@)) by {
                if cur@ == seq![46u8] {
                    assert(cur@.len() == 1 && cur@[0] == 46u8);
                }
            }
        }
        let ghost pushed = cur@;
        proof {
            assert(cur.deep_view() =~= cur@);
        }
        out.push(cur);
        proof {
            assert(out.deep_view() =~= out_before.push(pushed));
            assert(segs =~= segs.drop_last().push(segs.last()));
            assert(out.deep_view() =~= kept(segs));
        }
    } else {
        proof {
            assert(!keeps(cur@)) by {
                if cur@.len() > 0 {
                    assert(cur@ =~= seq![46u8]);
                }
            }
        }
    }
    out
}

/// Whether two byte vectors are equal.
pub fn bytes_eq(a: &[u8], b: &[u8]) -> (r: bool)
    ensures
        r == (a@ == b@),
{
    if a.len() != b.len() {
        return false;
    }
    let mut i: usize = 0;
    while i < a.len()
        invariant
            a@.len() == b@.len(),
            i <= a@.len(),
            forall|j: int| 0 <= j < i ==> a@[j] == b@[j],
        decreases a.len() - i,
    {
        if a[i] != b[i] {
            return false;
        }
        i = i + 1;
    }
    assert(a@ =~= b@);
    true
}

/// Whether the first `n` components of two component lists agree.
fn components_prefix(p: &Vec<Vec<u8>>, base: &Vec<Vec<u8>>) -> (r: bool)
    ensures
        r == (base.deep_view().len() <= p.deep_view().len() && p.deep_view().subrange(
            0,
            base.deep_view().len() as int,
        ) == base.deep_view()),
{
    if base.len() > p.len() {
        return false;
    }
    let mut i: usize = 0;
    while i < base.len()
        invariant
            base@.len() <= p@.len(),
            i <= base@.len(),
            forall|j: int| 0 <= j < i ==> p.deep_view()[j] == base.deep_view()[j],
        decreases base.len() - i,
    {
        proof {
            assert(p.deep_view()[i as int] == p@[i as int]@);
            assert(base.deep_view()[i as int] == base@[i as int]@);
        }
        if !bytes_eq(p[i].as_slice(), base[i].as_slice()) {
            assert(p.deep_view().subrange(0, base.deep_view().len() as int)[i as int]
                != base.deep_view()[i as int]);
            return false;
        }
        i = i + 1;
    }
    assert(p.deep_view().subrange(0, base.deep_view().len() as int) =~= base.deep_view());
    true
}

/// Whether the path starts at the root.
pub fn path_is_absolute(p: &[u8]) -> (r: bool)
    ensures
        r == is_absolute(p@),
{
    p.len() > 0 && p[0] == 47u8
}

/// Component-wise prefix test, as `Path::starts_with`.
pub fn starts_with(p: &[u8], base: &[u8]) -> (r: bool)
    ensures
        r == path_starts_with(p@, base@),
{
    if path_is_absolute(p) != path_is_absolute(base) {
        return false;
    }
    let pc = path_components(p);
    let bc = path_components(base);
    components_prefix(&pc, &bc)
}

/// Component-wise path equality, as `==` on `Path`.
pub fn paths_equal(a: &[u8], b: &[u8]) -> (r: bool)
    ensures
        r == path_eq(a@, b@),
{
    if path_is_absolute(a) != path_is_absolute(b) {
        return false;
    }
    let ac = path_components(a);
    let bc = path_components(b);
    proof {
        assert(ac.deep_view().len() == ac@.len());
        assert(bc.deep_view().len() == bc@.len());
    }
    if ac.len() != bc.len() {
        return false;
    }
    let same = components_prefix(&ac, &bc);
    proof {
        if same {
            assert(ac.deep_view().subrange(0, ac.deep_view().len() as int) =~= ac.deep_view());
        } else {
            if ac.deep_view() == bc.deep_view() {
                assert(ac.deep_view().subrange(0, bc.deep_view().len() as int) =~= ac.deep_view());
            }
        }
    }
    same
}

/// The components from position `from` on, joined by single separators.
fn join_components_from(parts: &Vec<Vec<u8>>, from: usize) -> (r: Vec<u8>)
    requires
        from <= parts@.len(),
    ensures
        r@ == join_parts(parts.deep_view().skip(from as int)),
{
    let mut out: Vec<u8> = Vec::new();
    let mut i: usize = from;
    proof {
        assert(parts.deep_view().subrange(from as int, from as int) =~= Seq::<Seq<u8>>::empty());
    }
    while i < parts.len()
        invariant
            from <= i <= parts@.len(),
            out@ == join_parts(parts.deep_view().subrange(from as int, i as int)),
        decreases parts.len() - i,
    {
        let ghost before = parts.deep_view().subrange(from as int, i as int);
        let ghost after = parts.deep_view().subrange(from as int, i + 1);
        proof {
            assert(after.drop_last() =~= before);
            assert(after.last() == parts.deep_view()[i as int]);
        }
        if i > from {
            out.push(47u8);
        }
        let piece = &parts[i];
        let mut k: usize = 0;
        let ghost start = out@;
        while k < piece.len()
            invariant
                k <= piece@.len(),
                out@ == start + piece@.subrange(0, k as int),
            decreases piece.len() - k,
        {
            out.push(piece[k]);
            proof {
                assert(piece@.subrange(0, k + 1) =~= piece@.subrange(0, k as int).push(piece@[k as int]));
            }
            k = k + 1;
        }
        proof {
            assert(piece@.subrange(0, piece@.len() as int) =~= piece@);
            if i > from {
                assert(out@ =~= join_parts(before) + seq![47u8] + after.last());
            } else {
                assert(before.len() == 0);
                assert(out@ =~= after[0]);
            }
        }
        i = i + 1;
    }
    proof {
        assert(parts.deep_view().subrange(from as int, parts@.len() as int)
            =~= parts.deep_view().skip(from as int));
    }
    out
}

/// The path relative to `base`, if `base` is a component-wise prefix.
pub fn strip_prefix(p: &[u8], base: &[u8]) -> (r: Option<Vec<u8>>)
    ensures
        match r {
            Some(rel) => spec_strip_prefix(p@, base@) == Some(rel@),
            None => spec_strip_prefix(p@, base@) is None,
        },
{
    if !starts_with(p, base) {
        return None;
    }
    let pc = path_components(p);
    let bc = path_components(base);
    Some(join_components_from(&pc, bc.len()))
}

/// The component count as `Path::components().count()`.
pub fn path_component_count(p: &[u8]) -> (r: u128)
    ensures
        r == component_count(p@),
{
    let c = path_components(p);
    proof {
        assert(c.deep_view().len() == c@.len());
    }
    if path_is_absolute(p) {
        c.len() as u128 + 1
    } else {
        c.len() as u128
    }
}

/// `PathBuf::push` on raw bytes.
pub fn join_path(base: &[u8], rel: &[u8]) -> (r: Vec<u8>)
    requires
        base@.len() + rel@.len() + 1 <= usize::MAX,
    ensures
        r@ == spec_join(base@, rel@),
{
    let mut out: Vec<u8> = Vec::new();
    if path_is_absolute(rel) {
        append_bytes(&mut out, rel);
        return out;
    }
    append_bytes(&mut out, base);
    if base.len() > 0 && base[base.len() - 1] != 47u8 {
        out.push(47u8);
    }
    append_bytes(&mut out, rel);
    out
}

/// Appends every byte of `src` to `dst`.
pub fn append_bytes(dst: &mut Vec<u8>, src: &[u8])
    ensures
        final(dst)@ == old(dst)@ + src@,
{
    let mut i: usize = 0;
    while i < src.len()
        invariant
            i <= src@.len(),
            dst@ == old(dst)@ + src@.subrange(0, i as int),
        decreases src.len() - i,
    {
        dst.push(src[i]);
        proof {
            assert(src@.subrange(0, i + 1) =~= src@.subrange(0, i as int).push(src@[i as int]));
        }
        i = i + 1;
    }
    assert(src@.subrange(0, src@.len() as int) =~= src@);
}

/// `Path::file_name` on raw bytes.
pub fn file_name(p: &[u8]) -> (r: Option<Vec<u8>>)
    ensures
        match r {
            Some(name) => spec_file_name(p@) == Some(name@),
            None => spec_file_name(p@) is None,
        },
{
    let mut c = path_components(p);
    let ghost dv = c.deep_view();
    proof {
        assert(dv.len() == c@.len());
        if c@.len() > 0 {
            assert(dv.last() == c@.last()@);
        }
    }
    match c.pop() {
        None => None,
        Some(last) => {
            if last.len() == 2 && last[0] == 46u8 && last[1] == 46u8 {
                proof {
                    assert(last@ =~= seq![46u8, 46u8]);
                }
                None
            } else {
                proof {
                    assert(last@ != seq![46u8, 46u8]) by {
                        if last@ == seq![46u8, 46u8] {
                            assert(last@.len() == 2 && last@[0] == 46u8 && last@[1] == 46u8);
                        }
                    }
                }
                Some(last)
            }
        }
    }
}

/// Lossy display text of raw path bytes.
pub fn display_path(path: &[u8]) -> (r: String)
    ensures
        r@ == utf8_lossy(path@),
{
    lossy_text(path)
}

/// Lossy display text of raw path bytes stored in the index.
pub fn display_bytes(bytes: &[u8]) -> (r: String)
    ensures
        r@ == utf8_lossy(bytes@),
{
    display_path(bytes)
}

/// The relative path of `path` below `root`, rejected when `path` is not
/// below `root` or names `root` itself.
pub open spec fn spec_safe_relative_path(root: Seq<u8>, path: Seq<u8>) -> Option<Seq<u8>> {
    match spec_strip_prefix(path, root) {
        Some(rel) => if rel.len() == 0 || is_absolute(rel) { None } else { Some(rel) },
        None => None,
    }
}

/// The path of a scanned file relative to the volume root; an error names the
/// offending paths.
pub fn safe_relative_path(root: &[u8], path: &[u8]) -> (r: Result<Vec<u8>, String>)
    ensures
        match r {
            Ok(rel) => spec_safe_relative_path(root@, path@) == Some(rel@),
            Err(_) => spec_safe_relative_path(root@, path@) is None,
        },
        spec_strip_prefix(path@, root@) is None ==> (r matches Err(e) ==> e@ == "路径 "@
            + utf8_lossy(path@) + " 不在扫描根目录 "@ + utf8_lossy(root@) + " 下"@),
        spec_strip_prefix(path@, root@) is Some ==> (r matches Err(e) ==> e@ == "不安全的相对路径: "@
            + utf8_lossy(spec_strip_prefix(path@, root@)->0)),
{
    match strip_prefix(path, root) {
        None => {
            let mut message = "路径 ".to_owned();
            message.append(display_path(path).as_str());
            message.append(" 不在扫描根目录 ");
            message.append(display_path(root).as_str());
            message.append(" 下");
            Err(message)
        },
        Some(rel) => {
            if rel.len() == 0 || path_is_absolute(rel.as_slice()) {
                let mut message = "不安全的相对路径: ".to_owned();
                message.append(display_path(rel.as_slice()).as_str());
                Err(message)
            } else {
                Ok(rel)
            }
        },
    }
}

/// A piece with no separator and not dropped as a component.
pub open spec fn is_clean_part(s: Seq<u8>) -> bool {
    keeps(s) && forall|j: int| 0 <= j < s.len() ==> !is_sep(#[trigger] s[j])
}

proof fn lemma_kept_concat(x: Seq<Seq<u8>>, y: Seq<Seq<u8>>)
    ensures
        kept(x + y) == kept(x) + kept(y),
    decreases y.len(),
{
    if y.len() == 0 {
        assert(x + y =~= x);
        assert(kept(x) + kept(y) =~= kept(x));
    } else {
        assert((x + y).drop_last() =~= x + y.drop_last());
        assert((x + y).last() == y.last());
        lemma_kept_concat(x, y.drop_last());
        if keeps(y.last()) {
            assert(kept(x) + kept(y) =~= (kept(x) + kept(y.drop_last())).push(y.last()));
        } else {
            assert(kept(x) + kept(y) =~= kept(x) + kept(y.drop_last()));
        }
    }
}

proof fn lemma_segments_split(a: Seq<u8>, b: Seq<u8>)
    ensures
        segments(a + seq![47u8] + b) == segments(a) + segments(b),
    decreases b.len(),
{
    let x = a + seq![47u8] + b;
    if b.len() == 0 {
        assert(x.drop_last() =~= a);
        assert(x.last() == 47u8);
        assert(segments(b) =~= seq![Seq::<u8>::empty()]);
        assert(segments(a).push(Seq::<u8>::empty()) =~= segments(a) + segments(b));
    } else {
        assert(x.drop_last() =~= a + seq![47u8] + b.drop_last());
        assert(x.last() == b.last());
        lemma_segments_split(a, b.drop_last());
        lemma_segments_nonempty(b.drop_last());
        lemma_segments_nonempty(a);
        let sa = segments(a);
        let sd = segments(b.drop_last());
        if is_sep(b.last()) {
            assert(segments(b) == sd.push(Seq::<u8>::empty()));
            assert((sa + sd).push(Seq::<u8>::empty()) =~= sa + sd.push(Seq::<u8>::empty()));
        } else {
            assert(segments(b) == sd.update(sd.len() - 1, sd.last().push(b.last())));
            assert((sa + sd).last() == sd.last());
            assert((sa + sd).update((sa + sd).len() - 1, sd.last().push(b.last())) =~= sa + sd.update(
                sd.len() - 1,
                sd.last().push(b.last()),
            ));
        }
    }
}

/// The components of two paths joined by a separator are those of each.
proof fn lemma_components_split(a: Seq<u8>, b: Seq<u8>)
    ensures
        components(a + seq![47u8] + b) == components(a) + components(b),
{
    lemma_segments_split(a, b);
    lemma_kept_concat(segments(a), segments(b));
}

proof fn lemma_segments_no_sep(s: Seq<u8>)
    requires
        forall|j: int| 0 <= j < s.len() ==> !is_sep(#[trigger] s[j]),
    ensures
        segments(s) == seq![s],
    decreases s.len(),
{
    if s.len() > 0 {
        assert forall|j: int| 0 <= j < s.drop_last().len() implies !is_sep(#[trigger] s.drop_last()[j]) by {
            assert(s.drop_last()[j] == s[j]);
        }
        lemma_segments_no_sep(s.drop_last());
        assert(!is_sep(s[s.len() - 1]));
        assert(s.drop_last().push(s.last()) =~= s);
        assert(seq![s.drop_last()].update(0, s.drop_last().push(s.last())) =~= seq![s]);
    } else {
        assert(s =~= Seq::<u8>::empty());
    }
}

proof fn lemma_segments_have_no_sep(p: Seq<u8>)
    ensures
        forall|i: int, j: int| 0 <= i < segments(p).len() && 0 <= j < segments(p)[i].len() ==> !is_sep(
            #[trigger] segments(p)[i][j],
        ),
    decreases p.len(),
{
    if p.len() > 0 {
        lemma_segments_have_no_sep(p.drop_last());
        lemma_segments_nonempty(p.drop_last());
    }
}

proof fn lemma_kept_clean(segs: Seq<Seq<u8>>)
    requires
        forall|i: int, j: int| 0 <= i < segs.len() && 0 <= j < segs[i].len() ==> !is_sep(#[trigger] segs[i][j]),
    ensures
        forall|i: int| 0 <= i < kept(segs).len() ==> is_clean_part(#[trigger] kept(segs)[i]),
    decreases segs.len(),
{
    if segs.len() > 0 {
        let d = segs.drop_last();
        assert forall|i: int, j: int| 0 <= i < d.len() && 0 <= j < d[i].len() implies !is_sep(#[trigger] d[i][j]) by {
            assert(d[i] == segs[i]);
        }
        lemma_kept_clean(d);
        if keeps(segs.last()) {
            assert forall|j: int| 0 <= j < segs.last().len() implies !is_sep(#[trigger] segs.last()[j]) by {
                assert(segs[segs.len() - 1][j] == segs.last()[j]);
            }
            assert(is_clean_part(segs.last()));
            assert forall|i: int| 0 <= i < kept(segs).len() implies is_clean_part(#[trigger] kept(segs)[i]) by {
                if i < kept(d).len() {
                    assert(kept(segs)[i] == kept(d)[i]);
                }
            }
        }
    }
}

proof fn lemma_kept_single(x: Seq<u8>)
    ensures
        kept(seq![x]) == if keeps(x) { seq![x] } else { Seq::<Seq<u8>>::empty() },
{
    assert(seq![x].drop_last() =~= Seq::<Seq<u8>>::empty());
    assert(seq![x].last() == x);
    assert(kept(Seq::<Seq<u8>>::empty()) == Seq::<Seq<u8>>::empty());
    assert(kept(seq![x].drop_last()) == Seq::<Seq<u8>>::empty());
    if keeps(x) {
        assert(Seq::<Seq<u8>>::empty().push(x) =~= seq![x]);
    }
}

/// Every component of a path is a clean part.
proof fn lemma_components_clean(p: Seq<u8>)
    ensures
        forall|i: int| 0 <= i < components(p).len() ==> is_clean_part(#[trigger] components(p)[i]),
{
    lemma_segments_have_no_sep(p);
    lemma_kept_clean(segments(p));
}

/// Clean parts joined by separators have exactly those parts as components.
proof fn lemma_components_of_join(parts: Seq<Seq<u8>>)
    requires
        forall|i: int| 0 <= i < parts.len() ==> is_clean_part(#[trigger] parts[i]),
    ensures
        components(join_parts(parts)) == parts,
    decreases parts.len(),
{
    if parts.len() == 0 {
        assert(segments(Seq::<u8>::empty()) == seq![Seq::<u8>::empty()]);
        lemma_kept_single(Seq::<u8>::empty());
    } else if parts.len() == 1 {
        assert(is_clean_part(parts[0]));
        lemma_segments_no_sep(parts[0]);
        assert(seq![parts[0]].drop_last() =~= Seq::<Seq<u8>>::empty());
        lemma_kept_single(parts[0]);
    } else {
        let d = parts.drop_last();
        assert forall|i: int| 0 <= i < d.len() implies is_clean_part(#[trigger] d[i]) by {
            assert(d[i] == parts[i]);
        }
        lemma_components_of_join(d);
        lemma_components_split(join_parts(d), parts.last());
        assert(is_clean_part(parts[parts.len() - 1]));
        lemma_segments_no_sep(parts.last());
        assert(seq![parts.last()].drop_last() =~= Seq::<Seq<u8>>::empty());
        lemma_kept_single(parts.last());
        assert(d + seq![parts.last()] =~= parts);
    }
}

/// The first byte of joined parts is the first byte of the first part.
proof fn lemma_join_first(parts: Seq<Seq<u8>>)
    requires
        parts.len() > 0,
        parts[0].len() > 0,
    ensures
        join_parts(parts).len() > 0,
        join_parts(parts)[0] == parts[0][0],
    decreases parts.len(),
{
    if parts.len() > 1 {
        let d = parts.drop_last();
        assert(d[0] == parts[0]);
        lemma_join_first(d);
    }
}

/// The components of a joined path: an absolute `rel` replaces `base`,
/// otherwise the components of `base` are followed by those of `rel`.
proof fn lemma_components_of_spec_join(base: Seq<u8>, rel: Seq<u8>)
    requires
        !is_absolute(rel),
    ensures
        components(spec_join(base, rel)) == components(base) + components(rel),
        is_absolute(spec_join(base, rel)) == is_absolute(base),
{
    if base.len() == 0 {
        assert(segments(base) == seq![Seq::<u8>::empty()]);
        lemma_kept_single(Seq::<u8>::empty());
        assert(base + rel =~= rel);
        assert(components(base) + components(rel) =~= components(rel));
    } else if is_sep(base.last()) {
        let front = base.drop_last();
        assert(front + seq![47u8] + Seq::<u8>::empty() =~= base);
        lemma_components_split(front, Seq::<u8>::empty());
        lemma_components_split(front, rel);
        assert(front + seq![47u8] + rel =~= base + rel);
        assert(segments(Seq::<u8>::empty()) == seq![Seq::<u8>::empty()]);
        lemma_kept_single(Seq::<u8>::empty());
        assert(components(front) + components(Seq::<u8>::empty()) =~= components(front));
        assert((base + rel)[0] == base[0]);
    } else {
        lemma_components_split(base, rel);
        assert((base + seq![47u8] + rel)[0] == base[0]);
    }
}

/// Joining the relative path that `safe_relative_path` gives back onto the
/// root yields the original path again (as `Path` equality compares):
/// `root.join(rel) == path`, with `rel` relative and non-empty.
pub proof fn relative_path_joins_back(root: Seq<u8>, path: Seq<u8>)
    requires
        spec_safe_relative_path(root, path) is Some,
    ensures
        ({
            let rel = spec_safe_relative_path(root, path)->0;
            &&& rel.len() > 0
            &&& !is_absolute(rel)
            &&& path_eq(spec_join(root, rel), path)
        }),
{
    let k = components(root).len() as int;
    let parts = components(path).skip(k);
    let rel = join_parts(parts);
    lemma_components_clean(path);
    assert forall|i: int| 0 <= i < parts.len() implies is_clean_part(#[trigger] parts[i]) by {
        assert(parts[i] == components(path)[i + k]);
    }
    lemma_components_of_join(parts);
    lemma_components_of_spec_join(root, rel);
    assert(components(path).subrange(0, k) + parts =~= components(path));
}

/// A path joined from a mount path and a relative path with at least one
/// component strips back to that relative path (as `Path` equality
/// compares): `safe_relative_path(m, m.join(rel)) == Ok(rel)`.
pub proof fn joined_path_strips_back(mount: Seq<u8>, rel: Seq<u8>)
    requires
        !is_absolute(rel),
        components(rel).len() > 0,
    ensures
        spec_safe_relative_path(mount, spec_join(mount, rel)) is Some,
        path_eq(spec_safe_relative_path(mount, spec_join(mount, rel))->0, rel),
{
    let joined = spec_join(mount, rel);
    lemma_components_of_spec_join(mount, rel);
    let k = components(mount).len() as int;
    assert(components(joined).subrange(0, k) =~= components(mount));
    assert(path_starts_with(joined, mount));
    let parts = components(joined).skip(k);
    assert(parts =~= components(rel));
    lemma_components_clean(rel);
    lemma_components_of_join(parts);
    let r = join_parts(parts);
    assert(is_clean_part(parts[0]));
    lemma_join_first(parts);
    assert(!is_sep(parts[0][0]));
    assert(!is_absolute(r));
}

} // verus!
