//! Decoded images, the rule for which files count as images, and the
//! slideshow picker over a list of image paths.

use std::collections::hash_map::RandomState;
use std::hash::BuildHasher;
use crate::config::str_eq;
use crate::hyprland::first_index;
use vstd::prelude::*;

verus! {

/// An image decoded to 8-bit RGBA, row by row.
pub struct ImageData {
    pub rgba: Vec<u8>,
    pub width: u32,
    pub height: u32,
}

/// Why an image could not be decoded.
#[derive(Debug)]
pub struct DecodeError {
    pub message: String,
}

/// The byte at position `i` of an image filled with one RGBA pixel.
pub open spec fn solid_byte(i: int, r: u8, g: u8, b: u8, a: u8) -> u8 {
    if i % 4 == 0 {
        r
    } else if i % 4 == 1 {
        g
    } else if i % 4 == 2 {
        b
    } else {
        a
    }
}

/// The image that the bytes `data` encode, as RGBA bytes, width and height;
/// `None` when they encode no image that can be decoded. It depends on the
/// bytes alone.
pub uninterp spec fn decoded_rgba8(data: Seq<u8>) -> Option<(Seq<u8>, u32, u32)>;

/// Relies on image::load_from_memory, DynamicImage::to_rgba8 and
/// ImageBuffer::into_raw: the result is the decoding of the bytes, and on
/// success the RGBA buffer holds at least four bytes per pixel.
#[verifier::external_body]
fn decode_rgba8(data: &[u8]) -> (r: Result<(Vec<u8>, u32, u32), String>)
    ensures
        match r {
            Ok((rgba, w, h)) => decoded_rgba8(data@) == Some((rgba@, w, h)),
            Err(_) => decoded_rgba8(data@) is None,
        },
        r matches Ok((rgba, w, h)) ==> rgba@.len() >= 4 * w * h,
{
    match image::load_from_memory(data) {
        Ok(img) => {
            let rgba = img.to_rgba8();
            let (w, h) = rgba.dimensions();
            Ok((rgba.into_raw(), w, h))
        },
        Err(e) => Err(e.to_string()),
    }
}

impl ImageData {
    /// Decodes an encoded image (PNG, JPEG, BMP, GIF, WebP) held in memory:
    /// the decoded image when the bytes hold one, else an error.
    pub fn from_memory(data: &[u8]) -> (r: Result<ImageData, DecodeError>)
        ensures
            match r {
                Ok(img) => decoded_rgba8(data@) == Some((img.rgba@, img.width, img.height)),
                Err(_) => decoded_rgba8(data@) is None,
            },
            r matches Ok(img) ==> img.rgba@.len() >= 4 * img.width * img.height,
    {
        match decode_rgba8(data) {
            Ok((rgba, width, height)) => Ok(ImageData { rgba, width, height }),
            Err(message) => Err(DecodeError { message }),
        }
    }

    /// An image of `width` x `height` pixels, all of color (r, g, b, a).
    pub fn solid_color(width: u32, height: u32, r: u8, g: u8, b: u8, a: u8) -> (img: Self)
        requires
            width * height * 4 <= u32::MAX,
        ensures
            img.width == width,
            img.height == height,
            img.rgba@.len() == width * height * 4,
            forall|i: int| 0 <= i < img.rgba@.len() ==> img.rgba@[i] == solid_byte(i, r, g, b, a),
    {
        assert(width * height <= u32::MAX) by (nonlinear_arith)
            requires
                width * height * 4 <= u32::MAX,
        ;
        let n: u32 = width * height;
        let mut rgba: Vec<u8> = Vec::new();
        let mut i: u32 = 0;
        while i < n
            invariant
                i <= n,
                n * 4 <= u32::MAX,
                rgba@.len() == 4 * i,
                forall|k: int| 0 <= k < rgba@.len() ==> rgba@[k] == solid_byte(k, r, g, b, a),
            decreases n - i,
        {
            rgba.push(r);
            rgba.push(g);
            rgba.push(b);
            rgba.push(a);
            i = i + 1;
        }
        ImageData { rgba, width, height }
    }
}

/// Loads images for the surfaces.
pub struct ImageLoader {}

impl ImageLoader {
    /// A loader.
    pub fn new() -> (r: Self) {
        ImageLoader {  }
    }
}

impl Default for ImageLoader {
    fn default() -> (r: Self) {
        ImageLoader::new()
    }
}

/// Index of the last occurrence of `c` in `s`, or -1.
pub open spec fn last_index_of(s: Seq<char>, c: char) -> int
    decreases s.len(),
{
    if s.len() == 0 {
        -1
    } else if s.last() == c {
        s.len() - 1
    } else {
        last_index_of(s.drop_last(), c)
    }
}

/// The last component of a `/`-separated path.
pub open spec fn file_name_of(path: Seq<char>) -> Seq<char> {
    path.subrange(last_index_of(path, '/') + 1, path.len() as int)
}

/// The extension of a file name: what follows its last dot, when that dot
/// is not the first character.
pub open spec fn extension_of(name: Seq<char>) -> Option<Seq<char>> {
    let p = last_index_of(name, '.');
    if p <= 0 {
        None
    } else {
        Some(name.subrange(p + 1, name.len() as int))
    }
}

/// `c` with ASCII upper case mapped to lower case.
pub open spec fn ascii_lower(c: char) -> char {
    if 'A' <= c <= 'Z' {
        ((c as u8) + 32) as u8 as char
    } else {
        c
    }
}

/// Whether `ext` equals the lower-case ASCII word `word`, ignoring ASCII case.
pub open spec fn ext_is(ext: Seq<char>, word: Seq<char>) -> bool {
    ext.len() == word.len() && forall|i: int| 0 <= i < ext.len() ==> ascii_lower(ext[i]) == word[i]
}

/// Whether a path names an image by its extension: jpg, jpeg, png, bmp, gif
/// or webp, in any case.
pub open spec fn is_image_path(path: Seq<char>) -> bool {
    match extension_of(file_name_of(path)) {
        Some(e) => ext_is(e, seq!['j', 'p', 'g']) || ext_is(e, seq!['j', 'p', 'e', 'g']) || ext_is(
            e,
            seq!['p', 'n', 'g'],
        ) || ext_is(e, seq!['b', 'm', 'p']) || ext_is(e, seq!['g', 'i', 'f']) || ext_is(
            e,
            seq!['w', 'e', 'b', 'p'],
        ),
        None => false,
    }
}

fn last_index(s: &str, c: char) -> (r: Option<usize>)
    ensures
        match r {
            Some(i) => i == last_index_of(s@, c) && i < s@.len(),
            None => last_index_of(s@, c) == -1,
        },
{
    let n = s.unicode_len();
    let mut i: usize = n;
    assert(s@.subrange(0, n as int) =~= s@);
    while i > 0
        invariant
            i <= n,
            n == s@.len(),
            last_index_of(s@, c) == last_index_of(s@.subrange(0, i as int), c),
        decreases i,
    {
        assert(s@.subrange(0, i as int).drop_last() =~= s@.subrange(0, i - 1));
        if s.get_char(i - 1) == c {
            return Some(i - 1);
        }
        i = i - 1;
    }
    None
}

fn ext_matches(ext: &str, word: &str) -> (r: bool)
    ensures
        r == ext_is(ext@, word@),
{
    let n = ext.unicode_len();
    if n != word.unicode_len() {
        return false;
    }
    let mut i: usize = 0;
    while i < n
        invariant
            i <= n,
            n == ext@.len(),
            n == word@.len(),
            forall|k: int| 0 <= k < i ==> ascii_lower(ext@[k]) == word@[k],
        decreases n - i,
    {
        let c = ext.get_char(i);
        let lower = if 'A' <= c && c <= 'Z' {
            ((c as u8) + 32) as char
        } else {
            c
        };
        if lower != word.get_char(i) {
            return false;
        }
        i = i + 1;
    }
    true
}

/// Whether a path names an image by its extension.
pub fn is_image_file(path: &str) -> (r: bool)
    ensures
        r == is_image_path(path@),
{
    let n = path.unicode_len();
    proof {
        assert(path@.subrange(0, n as int) =~= path@);
    }
    let start = match last_index(path, '/') {
        Some(i) => i + 1,
        None => 0,
    };
    let name = path.substring_char(start, n);
    assert(name@ == file_name_of(path@));
    let nl = name.unicode_len();
    proof {
        assert(name@.subrange(0, nl as int) =~= name@);
    }
    let dot = match last_index(name, '.') {
        Some(i) => i,
        None => {
            return false;
        },
    };
    if dot == 0 {
        return false;
    }
    let ext = name.substring_char(dot + 1, nl);
    proof {
        reveal_strlit("jpg");
        reveal_strlit("jpeg");
        reveal_strlit("png");
        reveal_strlit("bmp");
        reveal_strlit("gif");
        reveal_strlit("webp");
        assert("jpg"@ =~= seq!['j', 'p', 'g']);
        assert("jpeg"@ =~= seq!['j', 'p', 'e', 'g']);
        assert("png"@ =~= seq!['p', 'n', 'g']);
        assert("bmp"@ =~= seq!['b', 'm', 'p']);
        assert("gif"@ =~= seq!['g', 'i', 'f']);
        assert("webp"@ =~= seq!['w', 'e', 'b', 'p']);
    }
    ext_matches(ext, "jpg") || ext_matches(ext, "jpeg") || ext_matches(ext, "png") || ext_matches(
        ext,
        "bmp",
    ) || ext_matches(ext, "gif") || ext_matches(ext, "webp")
}

/// The image paths among `paths`, in their order.
pub open spec fn image_paths(paths: Seq<String>) -> Seq<String>
    decreases paths.len(),
{
    if paths.len() == 0 {
        Seq::empty()
    } else if is_image_path(paths.last()@) {
        image_paths(paths.drop_last()).push(paths.last())
    } else {
        image_paths(paths.drop_last())
    }
}

/// Keeps the paths that name images, in order.
pub fn filter_images(paths: &Vec<String>) -> (r: Vec<String>)
    ensures
        r@ == image_paths(paths@),
{
    let mut out: Vec<String> = Vec::new();
    let mut i: usize = 0;
    while i < paths.len()
        invariant
            i <= paths@.len(),
            out@ == image_paths(paths@.subrange(0, i as int)),
        decreases paths@.len() - i,
    {
        assert(paths@.subrange(0, i + 1).drop_last() =~= paths@.subrange(0, i as int));
        if is_image_file(paths[i].as_str()) {
            out.push(paths[i].clone());
        }
        i = i + 1;
    }
    assert(paths@.subrange(0, paths@.len() as int) =~= paths@);
    out
}


/// Multiplier of the linear congruential generator that drives the shuffle.
pub const LCG_MULTIPLIER: u64 = 6364136223846793005;

/// One step of the generator: `x * LCG_MULTIPLIER + 1`, wrapping at 2^64.
pub open spec fn lcg_next(x: u64) -> u64 {
    let m = (x as nat * LCG_MULTIPLIER as nat) % 0x1_0000_0000_0000_0000;
    if m + 1 > u64::MAX {
        0
    } else {
        (m + 1) as u64
    }
}

/// `s` with the elements at `i` and `j` exchanged.
pub open spec fn swap_at<A>(s: Seq<A>, i: int, j: int) -> Seq<A> {
    s.update(i, s[j]).update(j, s[i])
}

/// Fisher-Yates steps for positions `i` down to 1, each drawing the next
/// generator state and exchanging position `i` with `state % (i + 1)`.
pub open spec fn shuffle_steps<A>(s: Seq<A>, state: u64, i: nat) -> Seq<A>
    decreases i,
{
    if i == 0 {
        s
    } else {
        let next = lcg_next(state);
        let j = (next as nat % (i + 1)) as int;
        shuffle_steps(swap_at(s, i as int, j), next, (i - 1) as nat)
    }
}

/// The order that a shuffle seeded with `seed` gives `s`.
pub open spec fn shuffled<A>(s: Seq<A>, seed: u64) -> Seq<A> {
    if s.len() <= 1 {
        s
    } else {
        shuffle_steps(s, seed, (s.len() - 1) as nat)
    }
}


/// `a` sorts strictly before `b`: lexicographic order on characters, which
/// is the order of `String`.
pub open spec fn chars_lt(a: Seq<char>, b: Seq<char>) -> bool
    decreases a.len(),
{
    if b.len() == 0 {
        false
    } else if a.len() == 0 {
        true
    } else if a[0] != b[0] {
        (a[0] as u32) < (b[0] as u32)
    } else {
        chars_lt(a.drop_first(), b.drop_first())
    }
}

/// The `/`-separated segments of a path, in order, empty ones included; a
/// path that starts with `/` begins with an empty segment.
pub open spec fn segments(p: Seq<char>) -> Seq<Seq<char>>
    decreases p.len(),
{
    if p.len() == 0 {
        seq![Seq::empty()]
    } else {
        let rest = segments(p.drop_first());
        if p[0] == '/' {
            seq![Seq::empty()] + rest
        } else {
            rest.update(0, seq![p[0]] + rest[0])
        }
    }
}

/// Rank of a path segment, as `Path` orders its components: the root (the
/// empty segment before a leading `/`), then `.`, then `..`, then names.
pub open spec fn seg_rank(a: Seq<char>) -> int {
    if a.len() == 0 {
        0
    } else if a == seq!['.'] {
        1
    } else if a == seq!['.', '.'] {
        2
    } else {
        3
    }
}

/// Segment `a` sorts strictly before segment `b`: by rank, and names by
/// their characters.
pub open spec fn seg_lt(a: Seq<char>, b: Seq<char>) -> bool {
    seg_rank(a) < seg_rank(b) || (seg_rank(a) == 3 && seg_rank(b) == 3 && chars_lt(a, b))
}

/// Lexicographic order on segment lists.
pub open spec fn segs_lt(a: Seq<Seq<char>>, b: Seq<Seq<char>>) -> bool
    decreases a.len(),
{
    if b.len() == 0 {
        false
    } else if a.len() == 0 {
        true
    } else if a[0] != b[0] {
        seg_lt(a[0], b[0])
    } else {
        segs_lt(a.drop_first(), b.drop_first())
    }
}

/// Path `a` sorts strictly before path `b`: segment by segment, the order
/// of `Path` for paths as a directory walk yields them.
pub open spec fn path_lt(a: Seq<char>, b: Seq<char>) -> bool {
    segs_lt(segments(a), segments(b))
}

proof fn lemma_segments_nonempty(p: Seq<char>)
    ensures
        segments(p).len() >= 1,
    decreases p.len(),
{
    if p.len() > 0 {
        lemma_segments_nonempty(p.drop_first());
    }
}

proof fn lemma_seg_lt_order(a: Seq<char>, b: Seq<char>, c: Seq<char>)
    ensures
        !seg_lt(a, a),
        seg_lt(a, b) && seg_lt(b, c) ==> seg_lt(a, c),
{
    lemma_chars_lt_irreflexive(a);
    if seg_lt(a, b) && seg_lt(b, c) && seg_rank(a) == 3 && seg_rank(b) == 3 && seg_rank(c) == 3 {
        lemma_chars_lt_transitive(a, b, c);
    }
}

proof fn lemma_segs_lt_irreflexive(a: Seq<Seq<char>>)
    ensures
        !segs_lt(a, a),
    decreases a.len(),
{
    if a.len() > 0 {
        lemma_segs_lt_irreflexive(a.drop_first());
    }
}

proof fn lemma_segs_lt_transitive(a: Seq<Seq<char>>, b: Seq<Seq<char>>, c: Seq<Seq<char>>)
    requires
        segs_lt(a, b),
        segs_lt(b, c),
    ensures
        segs_lt(a, c),
    decreases a.len(),
{
    if a.len() > 0 && b.len() > 0 && c.len() > 0 {
        lemma_seg_lt_order(a[0], b[0], c[0]);
        lemma_seg_lt_order(a[0], b[0], a[0]);
        if a[0] == b[0] && b[0] == c[0] {
            lemma_segs_lt_transitive(a.drop_first(), b.drop_first(), c.drop_first());
        }
    }
}

proof fn lemma_segs_lt_suffix(a: Seq<Seq<char>>, b: Seq<Seq<char>>, i: int)
    requires
        0 <= i <= a.len(),
        i <= b.len(),
        a.subrange(0, i) == b.subrange(0, i),
    ensures
        segs_lt(a, b) == segs_lt(a.subrange(i, a.len() as int), b.subrange(i, b.len() as int)),
    decreases i,
{
    if i > 0 {
        assert(a[0] == a.subrange(0, i)[0]);
        assert(b[0] == b.subrange(0, i)[0]);
        assert(a.drop_first().subrange(0, i - 1) =~= a.subrange(0, i).drop_first());
        assert(b.drop_first().subrange(0, i - 1) =~= b.subrange(0, i).drop_first());
        lemma_segs_lt_suffix(a.drop_first(), b.drop_first(), i - 1);
        assert(a.drop_first().subrange(i - 1, a.len() - 1) =~= a.subrange(i, a.len() as int));
        assert(b.drop_first().subrange(i - 1, b.len() - 1) =~= b.subrange(i, b.len() as int));
    } else {
        assert(a.subrange(0, a.len() as int) =~= a);
        assert(b.subrange(0, b.len() as int) =~= b);
    }
}

/// The segments of a path, in order.
pub fn split_segments(p: &str) -> (r: Vec<String>)
    ensures
        r@.len() == segments(p@).len(),
        forall|k: int| 0 <= k < r@.len() ==> #[trigger] r@[k]@ == segments(p@)[k],
{
    let n = p.unicode_len();
    let mut out: Vec<String> = Vec::new();
    let mut end: usize = n;
    let mut i: usize = n;
    proof {
        assert(p@.subrange(n as int, n as int) =~= Seq::<char>::empty());
    }
    while i > 0
        invariant
            i <= end <= n,
            n == p@.len(),
            segments(p@.subrange(i as int, n as int)).len() == out@.len() + 1,
            segments(p@.subrange(i as int, n as int))[0] == p@.subrange(i as int, end as int),
            forall|k: int|
                0 <= k < out@.len() ==> #[trigger] out@[k]@ == segments(
                    p@.subrange(i as int, n as int),
                )[k + 1],
        decreases i,
    {
        let ghost tail = p@.subrange(i as int, n as int);
        let ghost whole = p@.subrange(i - 1, n as int);
        assert(whole.drop_first() =~= tail);
        proof {
            lemma_segments_nonempty(tail);
        }
        let c = p.get_char(i - 1);
        if c == '/' {
            let seg = p.substring_char(i, end);
            out.insert(0, String::from_str(seg));
            end = i - 1;
            assert(p@.subrange(i - 1, end as int) =~= Seq::<char>::empty());
        } else {
            assert(p@.subrange(i - 1, end as int) =~= seq![c] + p@.subrange(i as int, end as int));
        }
        i = i - 1;
    }
    let first = p.substring_char(0, end);
    out.insert(0, String::from_str(first));
    assert(p@.subrange(0, n as int) =~= p@);
    out
}

fn seg_rank_exec(a: &str) -> (r: u8)
    ensures
        r == seg_rank(a@),
{
    proof {
        reveal_strlit(".");
        reveal_strlit("..");
        assert("."@ =~= seq!['.']);
        assert(".."@ =~= seq!['.', '.']);
    }
    if a.unicode_len() == 0 {
        0
    } else if str_eq(a, ".") {
        1
    } else if str_eq(a, "..") {
        2
    } else {
        3
    }
}

fn seg_lt_exec(a: &str, b: &str) -> (r: bool)
    ensures
        r == seg_lt(a@, b@),
{
    let ra = seg_rank_exec(a);
    let rb = seg_rank_exec(b);
    ra < rb || (ra == 3 && rb == 3 && str_lt(a, b))
}

/// Whether path `a` sorts strictly before path `b`, segment by segment.
pub fn path_lt_exec(a: &str, b: &str) -> (r: bool)
    ensures
        r == path_lt(a@, b@),
{
    let sa = split_segments(a);
    let sb = split_segments(b);
    let ghost x = segments(a@);
    let ghost y = segments(b@);
    let na = sa.len();
    let nb = sb.len();
    let mut i: usize = 0;
    while i < na && i < nb
        invariant
            i <= na,
            i <= nb,
            na == x.len(),
            nb == y.len(),
            na == sa@.len(),
            nb == sb@.len(),
            x == segments(a@),
            y == segments(b@),
            forall|k: int| 0 <= k < na ==> #[trigger] sa@[k]@ == x[k],
            forall|k: int| 0 <= k < nb ==> #[trigger] sb@[k]@ == y[k],
            x.subrange(0, i as int) == y.subrange(0, i as int),
        decreases na - i,
    {
        assert(sa@[i as int]@ == x[i as int]);
        assert(sb@[i as int]@ == y[i as int]);
        if !str_eq(sa[i].as_str(), sb[i].as_str()) {
            proof {
                lemma_segs_lt_suffix(x, y, i as int);
                assert(x.subrange(i as int, na as int)[0] == x[i as int]);
                assert(y.subrange(i as int, nb as int)[0] == y[i as int]);
                assert(x[i as int] != y[i as int]);
                assert(segs_lt(x.subrange(i as int, na as int), y.subrange(i as int, nb as int))
                    == seg_lt(x[i as int], y[i as int]));
            }
            return seg_lt_exec(sa[i].as_str(), sb[i].as_str());
        }
        assert(x.subrange(0, i + 1) =~= x.subrange(0, i as int).push(x[i as int]));
        assert(y.subrange(0, i + 1) =~= y.subrange(0, i as int).push(y[i as int]));
        i = i + 1;
    }
    proof {
        lemma_segs_lt_suffix(x, y, i as int);
    }
    i == na && i < nb
}

/// `x` goes before `y` in ascending, or descending, path order.
pub open spec fn goes_before(x: Seq<char>, y: Seq<char>, descending: bool) -> bool {
    if descending {
        path_lt(y, x)
    } else {
        path_lt(x, y)
    }
}

/// Where `x` is inserted into `s`: before the first element it goes before,
/// so that equal elements keep their order.
pub open spec fn insert_pos(s: Seq<String>, x: Seq<char>, descending: bool) -> int
    decreases s.len(),
{
    if s.len() == 0 {
        0
    } else if goes_before(x, s[0]@, descending) {
        0
    } else {
        insert_pos(s.drop_first(), x, descending) + 1
    }
}

/// `s` stably sorted, by insertion.
pub open spec fn sorted_by(s: Seq<String>, descending: bool) -> Seq<String>
    decreases s.len(),
{
    if s.len() == 0 {
        s
    } else {
        let rest = sorted_by(s.drop_last(), descending);
        rest.insert(insert_pos(rest, s.last()@, descending), s.last())
    }
}

proof fn lemma_chars_lt_suffix(a: Seq<char>, b: Seq<char>, i: int)
    requires
        0 <= i <= a.len(),
        i <= b.len(),
        a.subrange(0, i) == b.subrange(0, i),
    ensures
        chars_lt(a, b) == chars_lt(
            a.subrange(i, a.len() as int),
            b.subrange(i, b.len() as int),
        ),
    decreases i,
{
    if i > 0 {
        assert(a[0] == a.subrange(0, i)[0]);
        assert(b[0] == b.subrange(0, i)[0]);
        assert(a.drop_first().subrange(0, i - 1) =~= a.subrange(0, i).drop_first());
        assert(b.drop_first().subrange(0, i - 1) =~= b.subrange(0, i).drop_first());
        lemma_chars_lt_suffix(a.drop_first(), b.drop_first(), i - 1);
        assert(a.drop_first().subrange(i - 1, a.len() - 1) =~= a.subrange(i, a.len() as int));
        assert(b.drop_first().subrange(i - 1, b.len() - 1) =~= b.subrange(i, b.len() as int));
    } else {
        assert(a.subrange(0, a.len() as int) =~= a);
        assert(b.subrange(0, b.len() as int) =~= b);
    }
}

/// Whether `a` sorts strictly before `b`.
pub fn str_lt(a: &str, b: &str) -> (r: bool)
    ensures
        r == chars_lt(a@, b@),
{
    let n = a.unicode_len();
    let m = b.unicode_len();
    let mut i: usize = 0;
    while i < n && i < m
        invariant
            i <= n,
            i <= m,
            n == a@.len(),
            m == b@.len(),
            a@.subrange(0, i as int) == b@.subrange(0, i as int),
        decreases n - i,
    {
        let x = a.get_char(i);
        let y = b.get_char(i);
        if x != y {
            proof {
                lemma_chars_lt_suffix(a@, b@, i as int);
                assert(a@.subrange(i as int, n as int)[0] == x);
                assert(b@.subrange(i as int, m as int)[0] == y);
            }
            return (x as u32) < (y as u32);
        }
        assert(a@.subrange(0, i + 1) =~= a@.subrange(0, i as int).push(x));
        assert(b@.subrange(0, i + 1) =~= b@.subrange(0, i as int).push(y));
        i = i + 1;
    }
    proof {
        lemma_chars_lt_suffix(a@, b@, i as int);
    }
    i == n && i < m
}

fn goes_before_exec(x: &str, y: &str, descending: bool) -> (r: bool)
    ensures
        r == goes_before(x@, y@, descending),
{
    if descending {
        path_lt_exec(y, x)
    } else {
        path_lt_exec(x, y)
    }
}

proof fn lemma_insert_pos(s: Seq<String>, x: Seq<char>, descending: bool, i: int)
    requires
        0 <= i <= s.len(),
        forall|k: int| 0 <= k < i ==> !goes_before(x, #[trigger] s[k]@, descending),
    ensures
        i < s.len() && goes_before(x, s[i]@, descending) ==> insert_pos(s, x, descending) == i,
        i == s.len() ==> insert_pos(s, x, descending) == i,
    decreases i,
{
    if i > 0 {
        assert(!goes_before(x, s[0]@, descending));
        assert forall|k: int| 0 <= k < i - 1 implies !goes_before(
            x,
            #[trigger] s.drop_first()[k]@,
            descending,
        ) by {
            assert(s.drop_first()[k] == s[k + 1]);
        }
        lemma_insert_pos(s.drop_first(), x, descending, i - 1);
    }
}


proof fn lemma_chars_lt_irreflexive(a: Seq<char>)
    ensures
        !chars_lt(a, a),
    decreases a.len(),
{
    if a.len() > 0 {
        lemma_chars_lt_irreflexive(a.drop_first());
    }
}

proof fn lemma_chars_lt_transitive(a: Seq<char>, b: Seq<char>, c: Seq<char>)
    requires
        chars_lt(a, b),
        chars_lt(b, c),
    ensures
        chars_lt(a, c),
    decreases a.len(),
{
    if a.len() > 0 && b.len() > 0 && c.len() > 0 && a[0] == b[0] && b[0] == c[0] {
        lemma_chars_lt_transitive(a.drop_first(), b.drop_first(), c.drop_first());
    }
}

proof fn lemma_goes_before_order(x: Seq<char>, y: Seq<char>, z: Seq<char>, descending: bool)
    ensures
        !goes_before(x, x, descending),
        goes_before(x, y, descending) && goes_before(y, z, descending) ==> goes_before(
            x,
            z,
            descending,
        ),
{
    lemma_segs_lt_irreflexive(segments(x));
    if goes_before(x, y, descending) && goes_before(y, z, descending) {
        if descending {
            lemma_segs_lt_transitive(segments(z), segments(y), segments(x));
        } else {
            lemma_segs_lt_transitive(segments(x), segments(y), segments(z));
        }
    }
}

/// No element goes before an earlier one.
pub open spec fn ordered(s: Seq<String>, descending: bool) -> bool {
    forall|i: int, j: int|
        0 <= i < j < s.len() ==> !goes_before(#[trigger] s[j]@, #[trigger] s[i]@, descending)
}

proof fn lemma_insert_pos_props(s: Seq<String>, x: Seq<char>, descending: bool)
    ensures
        0 <= insert_pos(s, x, descending) <= s.len(),
        forall|i: int|
            0 <= i < insert_pos(s, x, descending) ==> !goes_before(x, #[trigger] s[i]@, descending),
        insert_pos(s, x, descending) < s.len() ==> goes_before(
            x,
            s[insert_pos(s, x, descending)]@,
            descending,
        ),
    decreases s.len(),
{
    if s.len() > 0 && !goes_before(x, s[0]@, descending) {
        lemma_insert_pos_props(s.drop_first(), x, descending);
        assert forall|i: int| 0 <= i < insert_pos(s, x, descending) implies !goes_before(
            x,
            #[trigger] s[i]@,
            descending,
        ) by {
            if i > 0 {
                assert(s[i] == s.drop_first()[i - 1]);
            }
        }
    }
}

proof fn lemma_insert_keeps_order(s: Seq<String>, x: String, descending: bool)
    requires
        ordered(s, descending),
    ensures
        ordered(s.insert(insert_pos(s, x@, descending), x), descending),
{
    let k = insert_pos(s, x@, descending);
    lemma_insert_pos_props(s, x@, descending);
    let t = s.insert(k, x);
    assert forall|i: int, j: int| 0 <= i < j < t.len() implies !goes_before(
        #[trigger] t[j]@,
        #[trigger] t[i]@,
        descending,
    ) by {
        if j == k {
            assert(t[i] == s[i]);
        } else if i == k {
            assert(t[j] == s[j - 1]);
            lemma_goes_before_order(s[j - 1]@, x@, s[k]@, descending);
            lemma_goes_before_order(s[k]@, x@, s[k]@, descending);
            if j - 1 > k {
                assert(!goes_before(s[j - 1]@, s[k]@, descending));
            }
        } else {
            let si = if i < k { i } else { i - 1 };
            let sj = if j < k { j } else { j - 1 };
            assert(t[i] == s[si]);
            assert(t[j] == s[sj]);
        }
    }
}

/// A sorted sequence is ordered and holds the same elements.
pub proof fn lemma_sorted_by_is_sorted_permutation(s: Seq<String>, descending: bool)
    ensures
        ordered(sorted_by(s, descending), descending),
        sorted_by(s, descending).to_multiset() == s.to_multiset(),
    decreases s.len(),
{
    broadcast use vstd::seq_lib::group_to_multiset_ensures;

    if s.len() > 0 {
        let rest = sorted_by(s.drop_last(), descending);
        lemma_sorted_by_is_sorted_permutation(s.drop_last(), descending);
        lemma_insert_keeps_order(rest, s.last(), descending);
        lemma_insert_pos_props(rest, s.last()@, descending);
        vstd::seq_lib::to_multiset_insert(rest, insert_pos(rest, s.last()@, descending), s.last());
        assert(s =~= s.drop_last().push(s.last()));
    }
}

proof fn lemma_sorted_len(s: Seq<String>, descending: bool)
    ensures
        sorted_by(s, descending).len() == s.len(),
    decreases s.len(),
{
    if s.len() > 0 {
        lemma_sorted_len(s.drop_last(), descending);
        lemma_insert_pos_props(sorted_by(s.drop_last(), descending), s.last()@, descending);
    }
}

fn sort_strings(v: &Vec<String>, descending: bool) -> (r: Vec<String>)
    ensures
        r@ == sorted_by(v@, descending),
{
    let mut out: Vec<String> = Vec::new();
    let mut i: usize = 0;
    while i < v.len()
        invariant
            i <= v@.len(),
            out@ == sorted_by(v@.subrange(0, i as int), descending),
        decreases v@.len() - i,
    {
        let x = v[i].clone();
        let mut k: usize = 0;
        while k < out.len()
            invariant
                k <= out@.len(),
                forall|j: int| 0 <= j < k ==> !goes_before(x@, #[trigger] out@[j]@, descending),
            ensures
                k <= out@.len(),
                forall|j: int| 0 <= j < k ==> !goes_before(x@, #[trigger] out@[j]@, descending),
                k < out@.len() ==> goes_before(x@, out@[k as int]@, descending),
            decreases out@.len() - k,
        {
            if goes_before_exec(x.as_str(), out[k].as_str(), descending) {
                break;
            }
            k = k + 1;
        }
        proof {
            lemma_insert_pos(out@, x@, descending, k as int);
            assert(v@.subrange(0, i + 1).drop_last() =~= v@.subrange(0, i as int));
        }
        out.insert(k, x);
        i = i + 1;
    }
    assert(v@.subrange(0, v@.len() as int) =~= v@);
    out
}


proof fn lemma_swap_keeps_elements<A>(s: Seq<A>, i: int, j: int)
    requires
        0 <= i < s.len(),
        0 <= j < s.len(),
    ensures
        swap_at(s, i, j).to_multiset() == s.to_multiset(),
        swap_at(s, i, j).len() == s.len(),
{
    broadcast use vstd::seq_lib::group_to_multiset_ensures;
    broadcast use vstd::multiset::group_multiset_properties;

    let u = s.update(i, s[j]);
    assert(u.to_multiset() == s.to_multiset().insert(s[j]).remove(s[i]));
    assert(u.update(j, s[i]).to_multiset() == u.to_multiset().insert(s[i]).remove(u[j]));
    assert(swap_at(s, i, j).to_multiset() =~= s.to_multiset());
}

/// A shuffle only reorders: the same elements, each as often.
pub proof fn lemma_shuffle_keeps_elements<A>(s: Seq<A>, seed: u64)
    ensures
        shuffled(s, seed).to_multiset() == s.to_multiset(),
        shuffled(s, seed).len() == s.len(),
{
    if s.len() > 1 {
        lemma_shuffle_steps_keep_elements(s, seed, (s.len() - 1) as nat);
    }
}

proof fn lemma_shuffle_steps_keep_elements<A>(s: Seq<A>, state: u64, i: nat)
    requires
        i < s.len(),
    ensures
        shuffle_steps(s, state, i).to_multiset() == s.to_multiset(),
        shuffle_steps(s, state, i).len() == s.len(),
    decreases i,
{
    if i > 0 {
        let next = lcg_next(state);
        let j = (next as nat % (i + 1)) as int;
        lemma_swap_keeps_elements(s, i as int, j);
        lemma_shuffle_steps_keep_elements(swap_at(s, i as int, j), next, (i - 1) as nat);
    }
}

/// Relies on std's RandomState::new: a hasher builder with fresh random
/// keys; nothing is promised of them.
#[verifier::external_body]
fn random_state() -> (r: RandomState) {
    RandomState::new()
}

/// Relies on std's BuildHasher::hash_one: the hash of a zero byte under the
/// builder's keys. The keys are random, so nothing is promised of it.
#[verifier::external_body]
fn hash_of_zero(state: &RandomState) -> (r: u64) {
    state.hash_one(0u8)
}

/// Slideshow state: a list of image paths and the position of the one shown.
pub struct ImagePicker {
    images: Vec<String>,
    current_index: usize,
}

impl ImagePicker {
    /// The image paths, in slideshow order.
    pub closed spec fn images_view(&self) -> Seq<String> {
        self.images@
    }

    /// Position of the current image.
    pub closed spec fn index_view(&self) -> nat {
        self.current_index as nat
    }

    /// The position is inside the list, or zero when the list is empty.
    pub open spec fn wf(&self) -> bool {
        self.index_view() < self.images_view().len() || (self.index_view() == 0
            && self.images_view().len() == 0)
    }

    /// An empty picker.
    pub fn new() -> (r: Self)
        ensures
            r.wf(),
            r.images_view().len() == 0,
            r.index_view() == 0,
    {
        ImagePicker { images: Vec::new(), current_index: 0 }
    }

    /// Replaces the list with the image paths among `paths` (files found in
    /// a directory), in order, starting again from the first.
    pub fn set_from_listing(&mut self, paths: &Vec<String>)
        ensures
            final(self).wf(),
            final(self).images_view() == image_paths(paths@),
            final(self).index_view() == 0,
    {
        self.images = filter_images(paths);
        self.current_index = 0;
    }

    /// Replaces the list with the single file `path`.
    pub fn set_single(&mut self, path: String)
        ensures
            final(self).wf(),
            final(self).images_view() == seq![path],
            final(self).index_view() == 0,
    {
        let mut images: Vec<String> = Vec::new();
        images.push(path);
        self.images = images;
        self.current_index = 0;
        assert(self.images@ =~= seq![path]);
    }

    /// The current image path.
    pub fn current(&self) -> (r: Option<&String>)
        ensures
            match r {
                Some(p) => self.index_view() < self.images_view().len() && *p
                    == self.images_view()[self.index_view() as int],
                None => self.index_view() >= self.images_view().len(),
            },
    {
        if self.current_index < self.images.len() {
            Some(&self.images[self.current_index])
        } else {
            None
        }
    }

    /// Moves to the next image, wrapping around at the end.
    pub fn next(&mut self) -> (r: Option<&String>)
        requires
            old(self).wf(),
        ensures
            final(self).wf(),
            final(self).images_view() == old(self).images_view(),
            old(self).images_view().len() == 0 ==> r is None && final(self).index_view()
                == old(self).index_view(),
            old(self).images_view().len() > 0 ==> {
                &&& final(self).index_view() == (old(self).index_view() + 1) % old(
                    self,
                ).images_view().len()
                &&& r == Some(&old(self).images_view()[final(self).index_view() as int])
            },
    {
        if self.images.len() == 0 {
            return None;
        }
        self.current_index = (self.current_index + 1) % self.images.len();
        self.current()
    }

    /// Moves to the previous image, wrapping around at the start.
    pub fn previous(&mut self) -> (r: Option<&String>)
        requires
            old(self).wf(),
        ensures
            final(self).wf(),
            final(self).images_view() == old(self).images_view(),
            old(self).images_view().len() == 0 ==> r is None && final(self).index_view()
                == old(self).index_view(),
            old(self).images_view().len() > 0 ==> {
                &&& final(self).index_view() == if old(self).index_view() == 0 {
                    (old(self).images_view().len() - 1) as nat
                } else {
                    (old(self).index_view() - 1) as nat
                }
                &&& r == Some(&old(self).images_view()[final(self).index_view() as int])
            },
    {
        if self.images.len() == 0 {
            return None;
        }
        self.current_index = if self.current_index == 0 {
            self.images.len() - 1
        } else {
            self.current_index - 1
        };
        self.current()
    }

    /// Sorts the images by path, ascending; the position index is kept.
    pub fn sort_ascending(&mut self)
        requires
            old(self).wf(),
        ensures
            final(self).wf(),
            final(self).images_view() == sorted_by(old(self).images_view(), false),
            ordered(final(self).images_view(), false),
            final(self).images_view().to_multiset() == old(self).images_view().to_multiset(),
            final(self).index_view() == old(self).index_view(),
    {
        self.images = sort_strings(&self.images, false);
        proof {
            lemma_sorted_len(old(self).images@, false);
            lemma_sorted_by_is_sorted_permutation(old(self).images@, false);
        }
    }

    /// Sorts the images by path, descending; the position index is kept.
    pub fn sort_descending(&mut self)
        requires
            old(self).wf(),
        ensures
            final(self).wf(),
            final(self).images_view() == sorted_by(old(self).images_view(), true),
            ordered(final(self).images_view(), true),
            final(self).images_view().to_multiset() == old(self).images_view().to_multiset(),
            final(self).index_view() == old(self).index_view(),
    {
        self.images = sort_strings(&self.images, true);
        proof {
            lemma_sorted_len(old(self).images@, true);
            lemma_sorted_by_is_sorted_permutation(old(self).images@, true);
        }
    }

    /// Number of images.
    pub fn count(&self) -> (r: usize)
        ensures
            r == self.images_view().len(),
    {
        self.images.len()
    }

    /// Reorders the images by the shuffle that `seed` determines; the
    /// position index is kept.
    pub fn shuffle_with_seed(&mut self, seed: u64)
        requires
            old(self).wf(),
        ensures
            final(self).wf(),
            final(self).images_view() == shuffled(old(self).images_view(), seed),
            final(self).images_view().to_multiset() == old(self).images_view().to_multiset(),
            final(self).index_view() == old(self).index_view(),
    {
        proof {
            lemma_shuffle_keeps_elements(self.images@, seed);
        }
        let n = self.images.len();
        if n <= 1 {
            return;
        }
        let ghost initial = self.images@;
        let mut state: u64 = seed;
        let mut i: usize = n - 1;
        while i >= 1
            invariant
                n == self.images@.len(),
                n >= 2,
                i < n,
                shuffle_steps(initial, seed, (n - 1) as nat) == shuffle_steps(
                    self.images@,
                    state,
                    i as nat,
                ),
                self.current_index == old(self).current_index,
                old(self).wf(),
                old(self).images@.len() == n,
            decreases i,
        {
            state = state.wrapping_mul(LCG_MULTIPLIER).wrapping_add(1);
            let j = (state % ((i + 1) as u64)) as usize;
            let a = self.images[i].clone();
            let b = self.images[j].clone();
            let ghost before = self.images@;
            self.images.set(i, b);
            self.images.set(j, a);
            assert(self.images@ =~= swap_at(before, i as int, j as int));
            i = i - 1;
        }
        assert(self.images@ == shuffle_steps(self.images@, state, 0));
    }

    /// Reorders the images randomly.
    pub fn shuffle(&mut self)
        requires
            old(self).wf(),
        ensures
            final(self).wf(),
            exists|seed: u64| final(self).images_view() == shuffled(old(self).images_view(), seed),
            final(self).images_view().to_multiset() == old(self).images_view().to_multiset(),
            final(self).index_view() == old(self).index_view(),
    {
        let seed = hash_of_zero(&random_state());
        self.shuffle_with_seed(seed);
    }
}

impl Default for ImagePicker {
    fn default() -> (r: Self)
        ensures
            r.wf(),
            r.images_view().len() == 0,
            r.index_view() == 0,
    {
        ImagePicker::new()
    }
}

} // verus!
