//! The texture images offered for the terrain layers: the PNG files of the
//! texture folder, as asset paths, in order.
use vstd::prelude::*;

verus! {

/// The index of the last `.` in a file name, if there is one.
pub open spec fn last_dot(name: Seq<char>) -> Option<int>
    decreases name.len(),
{
    if name.len() == 0 {
        None
    } else if name.last() == '.' {
        Some(name.len() - 1)
    } else {
        last_dot(name.drop_last())
    }
}

/// Whether a file name has the extension `png`, as `Path::extension` reads
/// it: the text after the last `.`, when that dot is not the first character.
pub open spec fn has_png_extension(name: Seq<char>) -> bool {
    match last_dot(name) {
        Some(i) => i > 0 && name.skip(i + 1) == seq!['p', 'n', 'g'],
        None => false,
    }
}

/// `a <= b` in lexicographic order of characters, which is the order of
/// their UTF-8 bytes, and so the order of `String`'s `Ord`.
pub open spec fn text_le(a: Seq<char>, b: Seq<char>) -> bool
    decreases a.len(),
{
    if a.len() == 0 {
        true
    } else if b.len() == 0 {
        false
    } else if a[0] != b[0] {
        (a[0] as int) < (b[0] as int)
    } else {
        text_le(a.drop_first(), b.drop_first())
    }
}

/// The asset paths of the PNG files among `names`, in their order.
pub open spec fn png_asset_paths(names: Seq<Seq<char>>) -> Seq<Seq<char>>
    decreases names.len(),
{
    if names.len() == 0 {
        Seq::empty()
    } else if has_png_extension(names.last()) {
        png_asset_paths(names.drop_last()).push("textures/"@ + names.last())
    } else {
        png_asset_paths(names.drop_last())
    }
}

/// Where `text` goes into `sorted`, from `j` on: before the first text above it.
pub open spec fn text_insertion_point(sorted: Seq<Seq<char>>, text: Seq<char>, j: int) -> int
    decreases sorted.len() - j,
{
    if j < 0 || j >= sorted.len() {
        sorted.len() as int
    } else if !text_le(sorted[j], text) {
        j
    } else {
        text_insertion_point(sorted, text, j + 1)
    }
}

/// The texts in `String` order, as a stable sort leaves them.
pub open spec fn sorted_texts(texts: Seq<Seq<char>>) -> Seq<Seq<char>>
    decreases texts.len(),
{
    if texts.len() == 0 {
        Seq::empty()
    } else {
        let sorted = sorted_texts(texts.drop_last());
        let p = text_insertion_point(sorted, texts.last(), 0);
        sorted.take(p) + seq![texts.last()] + sorted.skip(p)
    }
}

/// Any two texts are ordered one way or the other.
pub proof fn lemma_text_le_total(a: Seq<char>, b: Seq<char>)
    ensures
        text_le(a, b) || text_le(b, a),
    decreases a.len(),
{
    if a.len() > 0 && b.len() > 0 {
        if a[0] == b[0] {
            lemma_text_le_total(a.drop_first(), b.drop_first());
        } else {
            assert((a[0] as int) != (b[0] as int));
        }
    }
}

/// The order of texts is transitive.
pub proof fn lemma_text_le_transitive(a: Seq<char>, b: Seq<char>, c: Seq<char>)
    requires
        text_le(a, b),
        text_le(b, c),
    ensures
        text_le(a, c),
    decreases a.len(),
{
    if a.len() > 0 && b.len() > 0 && c.len() > 0 && a[0] == b[0] && b[0] == c[0] {
        lemma_text_le_transitive(a.drop_first(), b.drop_first(), c.drop_first());
    }
}

/// Whether texts are in `String` order.
pub open spec fn texts_in_order(texts: Seq<Seq<char>>) -> bool {
    forall|i: int, j: int| 0 <= i < j < texts.len() ==> text_le(#[trigger] texts[i], #[trigger] texts[j])
}

proof fn lemma_text_insertion_point(sorted: Seq<Seq<char>>, text: Seq<char>, j: int)
    requires
        0 <= j <= sorted.len(),
    ensures
        j <= text_insertion_point(sorted, text, j) <= sorted.len(),
        forall|i: int| j <= i < text_insertion_point(sorted, text, j) ==> text_le(#[trigger] sorted[i], text),
        text_insertion_point(sorted, text, j) < sorted.len() ==> !text_le(
            sorted[text_insertion_point(sorted, text, j)],
            text,
        ),
    decreases sorted.len() - j,
{
    if j < sorted.len() && text_le(sorted[j], text) {
        lemma_text_insertion_point(sorted, text, j + 1);
    }
}

/// Sorting puts the texts in `String` order and keeps them all.
pub proof fn lemma_sorted_texts(texts: Seq<Seq<char>>)
    ensures
        sorted_texts(texts).len() == texts.len(),
        texts_in_order(sorted_texts(texts)),
    decreases texts.len(),
{
    if texts.len() > 0 {
        let rest = sorted_texts(texts.drop_last());
        lemma_sorted_texts(texts.drop_last());
        let t = texts.last();
        lemma_text_insertion_point(rest, t, 0);
        let p = text_insertion_point(rest, t, 0);
        let result = sorted_texts(texts);
        assert(result == rest.take(p) + seq![t] + rest.skip(p));
        if p < rest.len() {
            lemma_text_le_total(rest[p], t);
        }
        assert forall|i: int, j: int| 0 <= i < j < result.len() implies text_le(#[trigger] result[i], #[trigger] result[j]) by {
            if j < p {
                assert(result[i] == rest[i] && result[j] == rest[j]);
            } else if j == p {
                assert(result[i] == rest[i]);
            } else if i < p {
                assert(result[i] == rest[i] && result[j] == rest[j - 1]);
                lemma_text_le_transitive(rest[i], t, rest[p]);
                if j - 1 > p {
                    lemma_text_le_transitive(rest[i], rest[p], rest[j - 1]);
                }
            } else if i == p {
                assert(result[j] == rest[j - 1]);
                if j - 1 > p {
                    lemma_text_le_transitive(t, rest[p], rest[j - 1]);
                }
            } else {
                assert(result[i] == rest[i - 1] && result[j] == rest[j - 1]);
            }
        }
    }
}

/// The last dot lies within the name.
proof fn lemma_last_dot(name: Seq<char>)
    ensures
        last_dot(name) matches Some(i) ==> 0 <= i < name.len() && name[i] == '.',
    decreases name.len(),
{
    if name.len() > 0 && name.last() != '.' {
        lemma_last_dot(name.drop_last());
    }
}

/// The position of the last `.` in a file name.
fn find_last_dot(name: &str) -> (dot: Option<usize>)
    ensures
        match last_dot(name@) {
            Some(i) => dot == Some(i as usize),
            None => dot is None,
        },
{
    let mut i = name.unicode_len();
    assert(name@.take(i as int) =~= name@);
    while i > 0
        invariant
            i <= name@.len(),
            last_dot(name@) == last_dot(name@.take(i as int)),
        decreases i,
    {
        proof {
            assert(name@.take(i as int).drop_last() =~= name@.take(i - 1));
        }
        if name.get_char(i - 1) == '.' {
            return Some(i - 1);
        }
        i -= 1;
    }
    None
}

/// Whether a file name has the extension `png`.
pub fn is_png(name: &str) -> (png: bool)
    ensures
        png == has_png_extension(name@),
{
    proof {
        lemma_last_dot(name@);
    }
    match find_last_dot(name) {
        Some(i) => {
            let len = name.unicode_len();
            assert(name@.skip(i + 1).len() == len - i - 1);
            if i == 0 || len - i - 1 != 3 {
                return false;
            }
            let png = name.get_char(i + 1) == 'p' && name.get_char(i + 2) == 'n' && name.get_char(i + 3) == 'g';
            assert(png == (name@.skip(i + 1) =~= seq!['p', 'n', 'g']));
            png
        },
        None => false,
    }
}

/// Whether `a` comes before or equals `b` in `String` order.
pub fn text_at_most(a: &str, b: &str) -> (le: bool)
    ensures
        le == text_le(a@, b@),
{
    let a_len = a.unicode_len();
    let b_len = b.unicode_len();
    let mut i: usize = 0;
    assert(a@.skip(0) =~= a@ && b@.skip(0) =~= b@);
    while i < a_len && i < b_len && a.get_char(i) == b.get_char(i)
        invariant
            a_len == a@.len(),
            b_len == b@.len(),
            i <= a_len,
            i <= b_len,
            text_le(a@, b@) == text_le(a@.skip(i as int), b@.skip(i as int)),
        decreases a_len - i,
    {
        proof {
            assert(a@.skip(i as int).drop_first() =~= a@.skip(i + 1));
            assert(b@.skip(i as int).drop_first() =~= b@.skip(i + 1));
        }
        i += 1;
    }
    if i == a_len {
        return true;
    }
    if i == b_len {
        return false;
    }
    a.get_char(i) < b.get_char(i)
}

/// The asset paths of the PNG files among the texture folder's file names,
/// sorted as `String`s are.
pub fn texture_asset_paths(file_names: &Vec<String>) -> (paths: Vec<String>)
    ensures
        paths@.len() == sorted_texts(png_asset_paths(file_names@.map_values(|n: String| n@))).len(),
        forall|i: int| 0 <= i < paths@.len() ==> (#[trigger] paths@[i])@ == sorted_texts(
            png_asset_paths(file_names@.map_values(|n: String| n@)),
        )[i],
        forall|i: int, j: int| 0 <= i < j < paths@.len() ==> text_le(#[trigger] paths@[i]@, #[trigger] paths@[j]@),
{
    let ghost names = file_names@.map_values(|n: String| n@);
    let mut found: Vec<String> = Vec::new();
    let mut i: usize = 0;
    while i < file_names.len()
        invariant
            i <= file_names.len(),
            names == file_names@.map_values(|n: String| n@),
            found@.len() == png_asset_paths(names.take(i as int)).len(),
            forall|k: int| 0 <= k < found@.len() ==> (#[trigger] found@[k])@ == png_asset_paths(names.take(i as int))[k],
        decreases file_names.len() - i,
    {
        proof {
            assert(names.take(i + 1).drop_last() =~= names.take(i as int));
            assert(names.take(i + 1).last() == file_names@[i as int]@);
        }
        let name = file_names[i].as_str();
        if is_png(name) {
            proof {
                reveal_strlit("textures/");
            }
            let mut path = String::from_str("textures/");
            path.append(name);
            found.push(path);
        }
        i += 1;
    }
    proof {
        assert(names.take(file_names@.len() as int) =~= names);
    }
    let ghost all = png_asset_paths(names);
    let mut sorted: Vec<String> = Vec::new();
    let mut j: usize = 0;
    while j < found.len()
        invariant
            j <= found.len(),
            found@.len() == all.len(),
            forall|k: int| 0 <= k < found@.len() ==> (#[trigger] found@[k])@ == all[k],
            sorted@.len() == sorted_texts(all.take(j as int)).len(),
            forall|k: int| 0 <= k < sorted@.len() ==> (#[trigger] sorted@[k])@ == sorted_texts(all.take(j as int))[k],
        decreases found.len() - j,
    {
        let ghost before = sorted_texts(all.take(j as int));
        proof {
            assert(all.take(j + 1).drop_last() =~= all.take(j as int));
            assert(all.take(j + 1).last() == all[j as int]);
        }
        let text = found[j].clone();
        let mut p: usize = 0;
        while p < sorted.len() && text_at_most(sorted[p].as_str(), text.as_str())
            invariant
                p <= sorted.len(),
                sorted@.len() == before.len(),
                forall|k: int| 0 <= k < sorted@.len() ==> (#[trigger] sorted@[k])@ == before[k],
                text@ == all[j as int],
                text_insertion_point(before, text@, 0) == text_insertion_point(before, text@, p as int),
            decreases sorted.len() - p,
        {
            p += 1;
        }
        let ghost old_sorted = sorted@;
        sorted.insert(p, text);
        proof {
            let expected = before.take(p as int) + seq![all[j as int]] + before.skip(p as int);
            assert(p == text_insertion_point(before, all[j as int], 0));
            assert forall|k: int| 0 <= k < sorted@.len() implies (#[trigger] sorted@[k])@ == expected[k] by {
                if k < p {
                    assert(sorted@[k] == old_sorted[k]);
                } else if k > p {
                    assert(sorted@[k] == old_sorted[k - 1]);
                }
            }
        }
        j += 1;
    }
    proof {
        assert(all.take(found@.len() as int) =~= all);
        lemma_sorted_texts(all);
    }
    sorted
}

} // verus!
