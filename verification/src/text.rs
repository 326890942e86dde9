use vstd::prelude::*;

verus! {

// ---------------------------------------------------------------------------
// Mathematical model of the text operations the server relies on.
// Every operation works on the characters of a string (`Seq<char>`).
// ---------------------------------------------------------------------------

/// Unicode `White_Space`, the set that `char::is_whitespace` and `str::trim` use.
pub open spec fn is_space(c: char) -> bool {
    let u = c as u32;
    ||| (9 <= u && u <= 13)
    ||| u == 0x20
    ||| u == 0x85
    ||| u == 0xA0
    ||| u == 0x1680
    ||| (0x2000 <= u && u <= 0x200A)
    ||| u == 0x2028
    ||| u == 0x2029
    ||| u == 0x202F
    ||| u == 0x205F
    ||| u == 0x3000
}

/// First index at or after `i` that does not hold a space (or the length).
pub open spec fn skip_spaces(s: Seq<char>, i: int) -> int
    decreases s.len() - i,
{
    if 0 <= i < s.len() && is_space(s[i]) {
        skip_spaces(s, i + 1)
    } else {
        i
    }
}

/// One past the last index before `j` that does not hold a space (or 0).
pub open spec fn back_spaces(s: Seq<char>, j: int) -> int
    decreases j,
{
    if 0 < j <= s.len() && is_space(s[j - 1]) {
        back_spaces(s, j - 1)
    } else {
        j
    }
}

/// `str::trim`: the text without leading and trailing white space.
pub open spec fn trim(s: Seq<char>) -> Seq<char> {
    let a = skip_spaces(s, 0);
    let b = back_spaces(s, s.len() as int);
    if b <= a {
        Seq::empty()
    } else {
        s.subrange(a, b)
    }
}

/// `pat` occurs in `s` at index `i`.
pub open spec fn matches_at(s: Seq<char>, pat: Seq<char>, i: int) -> bool {
    &&& 0 <= i
    &&& i + pat.len() <= s.len()
    &&& s.subrange(i, i + pat.len()) == pat
}

/// The first occurrence of `pat` in `s` that starts at or after `k`.
pub open spec fn find_from(s: Seq<char>, pat: Seq<char>, k: int) -> Option<int>
    decreases s.len() - k,
{
    if k < 0 || k >= s.len() || k + pat.len() > s.len() {
        None
    } else if matches_at(s, pat, k) {
        Some(k)
    } else {
        find_from(s, pat, k + 1)
    }
}

/// `str::contains` for a non-empty pattern.
pub open spec fn contains(s: Seq<char>, pat: Seq<char>) -> bool {
    find_from(s, pat, 0) is Some
}

/// The character `c` occurs in `s`.
pub open spec fn has_char(s: Seq<char>, c: char) -> bool {
    exists|i: int| 0 <= i < s.len() && s[i] == c
}

pub proof fn lemma_find_from_bounds(s: Seq<char>, pat: Seq<char>, k: int)
    ensures
        find_from(s, pat, k) matches Some(i) ==> {
            &&& k <= i
            &&& matches_at(s, pat, i)
            &&& forall|j: int| k <= j < i ==> !matches_at(s, pat, j)
        },
        find_from(s, pat, k) is None && 0 <= k ==> forall|j: int|
            k <= j && j < s.len() ==> !matches_at(s, pat, j),
    decreases s.len() - k,
{
    if k < 0 || k >= s.len() || k + pat.len() > s.len() {
    } else if matches_at(s, pat, k) {
    } else {
        lemma_find_from_bounds(s, pat, k + 1);
    }
}

/// `str::split(pat)` on the part of `s` from index `k` on (pattern non-empty).
pub open spec fn split_from(s: Seq<char>, pat: Seq<char>, k: int) -> Seq<Seq<char>>
    decreases s.len() - k,
{
    if pat.len() == 0 || k < 0 || k > s.len() {
        seq![s.subrange(k, s.len() as int)]
    } else {
        match find_from(s, pat, k) {
            None => seq![s.subrange(k, s.len() as int)],
            Some(i) => {
                proof {
                    lemma_find_from_bounds(s, pat, k);
                }
                seq![s.subrange(k, i)] + split_from(s, pat, i + pat.len())
            },
        }
    }
}

/// `str::split(pat)` (pattern non-empty).
pub open spec fn split(s: Seq<char>, pat: Seq<char>) -> Seq<Seq<char>> {
    split_from(s, pat, 0)
}

/// `str::replace(pat, "")` on the part of `s` from index `k` on.
pub open spec fn remove_from(s: Seq<char>, pat: Seq<char>, k: int) -> Seq<char>
    decreases s.len() - k,
{
    if pat.len() == 0 || k < 0 || k > s.len() {
        s.subrange(k, s.len() as int)
    } else {
        match find_from(s, pat, k) {
            None => s.subrange(k, s.len() as int),
            Some(i) => {
                proof {
                    lemma_find_from_bounds(s, pat, k);
                }
                s.subrange(k, i) + remove_from(s, pat, i + pat.len())
            },
        }
    }
}

/// `str::replace(pat, "")`: every non-overlapping occurrence, left to right, removed.
pub open spec fn remove_all(s: Seq<char>, pat: Seq<char>) -> Seq<char> {
    remove_from(s, pat, 0)
}

/// Index of the first `'\n'` at or after `k`, or the length when there is none.
pub open spec fn next_newline(s: Seq<char>, k: int) -> int
    decreases s.len() - k,
{
    if k < 0 || k >= s.len() {
        s.len() as int
    } else if s[k] == '\n' {
        k
    } else {
        next_newline(s, k + 1)
    }
}

/// The text of the line that starts at `k` and ends at `e` (a `'\n'` or the end):
/// a `'\r'` just before the `'\n'` is not part of it.
pub open spec fn line_body(s: Seq<char>, k: int, e: int) -> Seq<char> {
    if e < s.len() && k < e && s[e - 1] == '\r' {
        s.subrange(k, e - 1)
    } else {
        s.subrange(k, e)
    }
}

pub proof fn lemma_next_newline_bounds(s: Seq<char>, k: int)
    requires
        0 <= k <= s.len(),
    ensures
        k <= next_newline(s, k) <= s.len(),
        next_newline(s, k) < s.len() ==> s[next_newline(s, k)] == '\n',
        forall|j: int| k <= j < next_newline(s, k) ==> s[j] != '\n',
    decreases s.len() - k,
{
    if k < s.len() && s[k] != '\n' {
        lemma_next_newline_bounds(s, k + 1);
    }
}

/// `str::lines` on the part of `s` from index `k` on.
pub open spec fn lines_from(s: Seq<char>, k: int) -> Seq<Seq<char>>
    decreases s.len() - k,
{
    if k < 0 || k >= s.len() {
        Seq::empty()
    } else {
        let e = next_newline(s, k);
        proof {
            lemma_next_newline_bounds(s, k);
        }
        if e >= s.len() {
            seq![line_body(s, k, e)]
        } else {
            seq![line_body(s, k, e)] + lines_from(s, e + 1)
        }
    }
}

/// `str::lines`: the lines of `s`, split at `"\n"` or `"\r\n"`; the last line
/// ending is optional.
pub open spec fn lines(s: Seq<char>) -> Seq<Seq<char>> {
    lines_from(s, 0)
}

/// `slice.join(sep)` for a list of texts.
pub open spec fn join(parts: Seq<Seq<char>>, sep: Seq<char>) -> Seq<char>
    decreases parts.len(),
{
    if parts.len() == 0 {
        Seq::empty()
    } else if parts.len() == 1 {
        parts[0]
    } else {
        join(parts.drop_last(), sep) + sep + parts.last()
    }
}

/// ASCII lower case of one character; other characters stay as they are.
pub open spec fn ascii_lower(c: char) -> char {
    if 'A' <= c && c <= 'Z' {
        ((c as u32) + 32) as char
    } else {
        c
    }
}

/// ASCII lower case of a text.
pub open spec fn ascii_lower_all(s: Seq<char>) -> Seq<char> {
    s.map_values(|c: char| ascii_lower(c))
}

// ---------------------------------------------------------------------------
// Executable operations, each proved against the model above.
// ---------------------------------------------------------------------------

/// The characters of a string slice, in order.
pub fn chars_of(s: &str) -> (v: Vec<char>)
    ensures
        v@ == s@,
{
    let mut v: Vec<char> = Vec::new();
    for c in it: s.chars()
        invariant
            v@ == it.seq().take(it.index() as int),
            it.seq() == s@,
    {
        v.push(c);
    }
    v
}

/// The string made of the given characters (std's `FromIterator<char>` for
/// `String`, which concatenates the characters in order).
#[verifier::external_body]
pub fn string_of(chars: &[char]) -> (s: String)
    ensures
        s@ == chars@,
{
    chars.iter().collect()
}

/// Whether `c` is Unicode white space (`char::is_whitespace`).
pub fn is_space_char(c: char) -> (b: bool)
    ensures
        b == is_space(c),
{
    let u = c as u32;
    (9 <= u && u <= 13) || u == 0x20 || u == 0x85 || u == 0xA0 || u == 0x1680 || (0x2000 <= u
        && u <= 0x200A) || u == 0x2028 || u == 0x2029 || u == 0x202F || u == 0x205F || u == 0x3000
}

/// Whether two texts are equal.
pub fn same_chars(a: &Vec<char>, b: &Vec<char>) -> (r: bool)
    ensures
        r == (a@ == b@),
{
    if a.len() != b.len() {
        return false;
    }
    let n = a.len();
    for i in 0..n
        invariant
            n == a@.len(),
            n == b@.len(),
            forall|j: int| 0 <= j < i ==> a@[j] == b@[j],
    {
        if a[i] != b[i] {
            return false;
        }
    }
    assert(a@ =~= b@);
    true
}

/// Whether `s` equals the literal text `lit`.
pub fn equals_str(s: &Vec<char>, lit: &str) -> (r: bool)
    ensures
        r == (s@ == lit@),
{
    let l = chars_of(lit);
    same_chars(s, &l)
}

/// ASCII lower case of a text.
pub fn ascii_lower_exec(s: &Vec<char>) -> (r: Vec<char>)
    ensures
        r@ == ascii_lower_all(s@),
{
    let mut r: Vec<char> = Vec::new();
    let n = s.len();
    for i in 0..n
        invariant
            n == s@.len(),
            r@ =~= ascii_lower_all(s@.take(i as int)),
    {
        let c = s[i];
        let d = if 'A' <= c && c <= 'Z' {
            ((c as u8) + 32) as char
        } else {
            c
        };
        r.push(d);
        assert(ascii_lower_all(s@.take(i + 1)) =~= ascii_lower_all(s@.take(i as int)).push(
            ascii_lower(s@[i as int]),
        ));
    }
    assert(s@.take(n as int) =~= s@);
    r
}

/// Appends `src` to `dst`.
pub fn push_all(dst: &mut Vec<char>, src: &Vec<char>)
    ensures
        final(dst)@ == old(dst)@ + src@,
{
    let n = src.len();
    let ghost start = dst@;
    for i in 0..n
        invariant
            n == src@.len(),
            dst@ == start + src@.take(i as int),
    {
        dst.push(src[i]);
        assert(src@.take(i + 1) == src@.take(i as int).push(src@[i as int]));
    }
    assert(src@.take(n as int) == src@);
}

/// Appends the characters of `s` to `dst`.
pub fn push_str(dst: &mut Vec<char>, s: &str)
    ensures
        final(dst)@ == old(dst)@ + s@,
{
    let v = chars_of(s);
    push_all(dst, &v);
}

/// The characters of `s` from index `a` up to (not including) `b`.
pub fn slice(s: &Vec<char>, a: usize, b: usize) -> (r: Vec<char>)
    requires
        a <= b <= s@.len(),
    ensures
        r@ == s@.subrange(a as int, b as int),
{
    let mut r: Vec<char> = Vec::new();
    let mut i = a;
    while i < b
        invariant
            a <= i <= b <= s@.len(),
            r@ == s@.subrange(a as int, i as int),
        decreases b - i,
    {
        r.push(s[i]);
        assert(s@.subrange(a as int, i + 1) == s@.subrange(a as int, i as int).push(s@[i as int]));
        i = i + 1;
    }
    r
}

/// Whether `pat` occurs in `s` at index `i`.
pub fn matches_at_exec(s: &Vec<char>, pat: &Vec<char>, i: usize) -> (b: bool)
    ensures
        b == matches_at(s@, pat@, i as int),
{
    if i > s.len() || pat.len() > s.len() - i {
        return false;
    }
    let n = pat.len();
    let mut j: usize = 0;
    while j < n
        invariant
            n == pat@.len(),
            i + n <= s.len(),
            j <= n,
            forall|t: int| 0 <= t < j ==> s@[i + t] == pat@[t],
        decreases n - j,
    {
        assert(i + j < i + n);
        if s[i + j] != pat[j] {
            assert(s@.subrange(i as int, i + n)[j as int] != pat@[j as int]);
            return false;
        }
        j = j + 1;
    }
    assert(s@.subrange(i as int, i + n) =~= pat@);
    true
}

/// The first occurrence of `pat` in `s` at or after `k`.
pub fn find_from_exec(s: &Vec<char>, pat: &Vec<char>, k: usize) -> (r: Option<usize>)
    ensures
        r matches Some(j) ==> find_from(s@, pat@, k as int) == Some(j as int),
        r is None ==> find_from(s@, pat@, k as int) is None,
{
    let mut i = k;
    while i < s.len()
        invariant
            k <= i,
            find_from(s@, pat@, k as int) == find_from(s@, pat@, i as int),
        decreases s@.len() - i,
    {
        if pat.len() > s.len() - i {
            return None;
        }
        if matches_at_exec(s, pat, i) {
            return Some(i);
        }
        i = i + 1;
    }
    None
}

/// Whether `pat` occurs in `s`.
pub fn contains_exec(s: &Vec<char>, pat: &Vec<char>) -> (b: bool)
    ensures
        b == contains(s@, pat@),
{
    find_from_exec(s, pat, 0).is_some()
}

/// `str::trim`.
pub fn trim_exec(s: &Vec<char>) -> (r: Vec<char>)
    ensures
        r@ == trim(s@),
{
    let mut a: usize = 0;
    while a < s.len() && is_space_char(s[a])
        invariant
            a <= s@.len(),
            skip_spaces(s@, a as int) == skip_spaces(s@, 0),
        decreases s@.len() - a,
    {
        a = a + 1;
    }
    let mut b: usize = s.len();
    while b > 0 && is_space_char(s[b - 1])
        invariant
            b <= s@.len(),
            back_spaces(s@, b as int) == back_spaces(s@, s@.len() as int),
        decreases b,
    {
        b = b - 1;
    }
    if b <= a {
        Vec::new()
    } else {
        slice(s, a, b)
    }
}

/// `str::split(pat)` for a non-empty pattern.
pub fn split_exec(s: &Vec<char>, pat: &Vec<char>) -> (parts: Vec<Vec<char>>)
    requires
        pat@.len() > 0,
    ensures
        parts@.map_values(|p: Vec<char>| p@) == split(s@, pat@),
{
    let mut parts: Vec<Vec<char>> = Vec::new();
    let mut k: usize = 0;
    loop
        invariant
            pat@.len() > 0,
            k <= s@.len(),
            parts@.map_values(|p: Vec<char>| p@) + split_from(s@, pat@, k as int) == split(
                s@,
                pat@,
            ),
        decreases s@.len() - k,
    {
        proof {
            lemma_find_from_bounds(s@, pat@, k as int);
        }
        match find_from_exec(s, pat, k) {
            None => {
                let last = slice(s, k, s.len());
                let ghost before = parts@.map_values(|p: Vec<char>| p@);
                parts.push(last);
                assert(parts@.map_values(|p: Vec<char>| p@) =~= before.push(last@));
                assert(split_from(s@, pat@, k as int) =~= seq![last@]);
                return parts;
            },
            Some(i) => {
                let piece = slice(s, k, i);
                let ghost before = parts@.map_values(|p: Vec<char>| p@);
                parts.push(piece);
                assert(parts@.map_values(|p: Vec<char>| p@) =~= before.push(piece@));
                let ghost rest = split_from(s@, pat@, (i + pat@.len()) as int);
                assert(split_from(s@, pat@, k as int) == seq![piece@] + rest);
                assert(before + (seq![piece@] + rest) =~= before.push(piece@) + rest);
                assert(i + pat@.len() <= s.len());
                k = i + pat.len();
            },
        }
    }
}

/// `str::replace(pat, "")` for a non-empty pattern.
pub fn remove_all_exec(s: &Vec<char>, pat: &Vec<char>) -> (r: Vec<char>)
    requires
        pat@.len() > 0,
    ensures
        r@ == remove_all(s@, pat@),
{
    let mut r: Vec<char> = Vec::new();
    let mut k: usize = 0;
    loop
        invariant
            pat@.len() > 0,
            k <= s@.len(),
            r@ + remove_from(s@, pat@, k as int) == remove_all(s@, pat@),
        decreases s@.len() - k,
    {
        proof {
            lemma_find_from_bounds(s@, pat@, k as int);
        }
        match find_from_exec(s, pat, k) {
            None => {
                let last = slice(s, k, s.len());
                push_all(&mut r, &last);
                return r;
            },
            Some(i) => {
                let piece = slice(s, k, i);
                let ghost before = r@;
                push_all(&mut r, &piece);
                let ghost rest = remove_from(s@, pat@, (i + pat@.len()) as int);
                assert(before + (piece@ + rest) =~= (before + piece@) + rest);
                assert(i + pat@.len() <= s.len());
                k = i + pat.len();
            },
        }
    }
}

/// `str::lines`.
pub fn lines_exec(s: &Vec<char>) -> (ls: Vec<Vec<char>>)
    ensures
        ls@.map_values(|p: Vec<char>| p@) == lines(s@),
{
    let mut ls: Vec<Vec<char>> = Vec::new();
    let mut k: usize = 0;
    while k < s.len()
        invariant
            k <= s@.len(),
            ls@.map_values(|p: Vec<char>| p@) + lines_from(s@, k as int) == lines(s@),
        decreases s@.len() - k,
    {
        proof {
            lemma_next_newline_bounds(s@, k as int);
        }
        let mut e = k;
        while e < s.len() && s[e] != '\n'
            invariant
                k <= e <= s@.len(),
                next_newline(s@, e as int) == next_newline(s@, k as int),
            decreases s@.len() - e,
        {
            e = e + 1;
        }
        let body = if e < s.len() && k < e && s[e - 1] == '\r' {
            slice(s, k, e - 1)
        } else {
            slice(s, k, e)
        };
        let ghost before = ls@.map_values(|p: Vec<char>| p@);
        ls.push(body);
        assert(ls@.map_values(|p: Vec<char>| p@) =~= before.push(body@));
        if e < s.len() {
            let ghost rest = lines_from(s@, e + 1);
            assert(lines_from(s@, k as int) == seq![body@] + rest);
            assert(before + (seq![body@] + rest) =~= before.push(body@) + rest);
            k = e + 1;
        } else {
            assert(lines_from(s@, k as int) == seq![body@]);
            k = e;
        }
    }
    assert(ls@.map_values(|p: Vec<char>| p@) + lines_from(s@, k as int) =~= ls@.map_values(
        |p: Vec<char>| p@,
    ));
    ls
}

/// `slice.join(sep)`.
pub fn join_exec(parts: &Vec<Vec<char>>, sep: &Vec<char>) -> (r: Vec<char>)
    ensures
        r@ == join(parts@.map_values(|p: Vec<char>| p@), sep@),
{
    let ghost views = parts@.map_values(|p: Vec<char>| p@);
    let mut r: Vec<char> = Vec::new();
    let n = parts.len();
    for i in 0..n
        invariant
            n == parts@.len(),
            views == parts@.map_values(|p: Vec<char>| p@),
            r@ == join(views.take(i as int), sep@),
    {
        assert(views.take(i + 1).drop_last() =~= views.take(i as int));
        if i > 0 {
            push_all(&mut r, sep);
        }
        push_all(&mut r, &parts[i]);
        if i == 0 {
            assert(r@ =~= views.take(1)[0]);
        }
    }
    assert(views.take(n as int) =~= views);
    r
}

} // verus!
