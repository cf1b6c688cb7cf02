//! Small string helpers shared by the other modules: path joining, decimal
//! rendering, text comparison and order, and trimming and splitting text
//! into lines and words.

use vstd::prelude::*;

verus! {

/// The path obtained by appending `rel` to `base`, as a filesystem path join
/// does on Unix: an absolute `rel` replaces `base`; otherwise a `/` is put
/// between the two unless `base` is empty or already ends with one.
pub open spec fn path_join_spec(base: Seq<char>, rel: Seq<char>) -> Seq<char> {
    if rel.len() > 0 && rel[0] == '/' {
        rel
    } else if base.len() == 0 {
        rel
    } else if base.last() == '/' {
        base + rel
    } else {
        base + seq!['/'] + rel
    }
}

/// Joins two paths; see `path_join_spec`.
pub fn path_join(base: &str, rel: &str) -> (res: String)
    ensures
        res@ == path_join_spec(base@, rel@),
{
    let rel_len = rel.unicode_len();
    let base_len = base.unicode_len();
    if rel_len > 0 && rel.get_char(0) == '/' {
        return rel.to_owned();
    }
    if base_len == 0 {
        return rel.to_owned();
    }
    let mut res = base.to_owned();
    if base.get_char(base_len - 1) != '/' {
        let sep = "/";
        proof {
            reveal_strlit("/");
        }
        res.append(sep);
    }
    res.append(rel);
    res
}

/// The character of a decimal digit.
pub open spec fn digit_char(d: nat) -> char {
    if d == 0 { '0' }
    else if d == 1 { '1' }
    else if d == 2 { '2' }
    else if d == 3 { '3' }
    else if d == 4 { '4' }
    else if d == 5 { '5' }
    else if d == 6 { '6' }
    else if d == 7 { '7' }
    else if d == 8 { '8' }
    else { '9' }
}

/// The decimal rendering of a natural number, without leading zeros.
pub open spec fn decimal(n: nat) -> Seq<char>
    decreases n,
{
    if n < 10 {
        seq![digit_char(n)]
    } else {
        decimal(n / 10) + seq![digit_char(n % 10)]
    }
}

fn digit_str(d: u64) -> (res: &'static str)
    requires
        d < 10,
    ensures
        res@ == seq![digit_char(d as nat)],
{
    proof {
        reveal_strlit("0");
        reveal_strlit("1");
        reveal_strlit("2");
        reveal_strlit("3");
        reveal_strlit("4");
        reveal_strlit("5");
        reveal_strlit("6");
        reveal_strlit("7");
        reveal_strlit("8");
        reveal_strlit("9");
    }
    if d == 0 { "0" }
    else if d == 1 { "1" }
    else if d == 2 { "2" }
    else if d == 3 { "3" }
    else if d == 4 { "4" }
    else if d == 5 { "5" }
    else if d == 6 { "6" }
    else if d == 7 { "7" }
    else if d == 8 { "8" }
    else { "9" }
}

/// Renders `n` in decimal.
pub fn decimal_string(n: u64) -> (res: String)
    ensures
        res@ == decimal(n as nat),
    decreases n,
{
    if n < 10 {
        digit_str(n).to_owned()
    } else {
        let mut res = decimal_string(n / 10);
        res.append(digit_str(n % 10));
        res
    }
}

/// Whether two strings hold the same characters.
pub fn str_eq(a: &str, b: &str) -> (res: bool)
    ensures
        res == (a@ == b@),
{
    let x = a.to_owned();
    let y = b.to_owned();
    x == y
}

/// Lexicographic order of character sequences, comparing code points; a
/// proper prefix comes first. On valid text this is the byte order of the
/// UTF-8 encodings.
pub open spec fn lex_lt(a: Seq<char>, b: Seq<char>) -> bool {
    exists|k: int|
        #![trigger a.take(k), b.take(k)]
        0 <= k <= a.len() && k <= b.len() && a.take(k) == b.take(k) && (
        (k < a.len() && k < b.len() && a[k] < b[k]) || (k == a.len() && k < b.len()))
}

/// `lex_lt` compares first characters and goes on with the rest where they
/// agree.
pub proof fn lemma_lex_lt_unfold(a: Seq<char>, b: Seq<char>)
    ensures
        lex_lt(a, b) == (if a.len() == 0 {
            b.len() > 0
        } else if b.len() == 0 {
            false
        } else if a[0] != b[0] {
            a[0] < b[0]
        } else {
            lex_lt(a.drop_first(), b.drop_first())
        }),
{
    if a.len() == 0 {
        if b.len() > 0 {
            assert(a.take(0) =~= b.take(0));
        }
    } else if b.len() == 0 {
    } else if a[0] != b[0] {
        if lex_lt(a, b) {
            let k = choose|k: int|
                #![trigger a.take(k), b.take(k)]
                0 <= k <= a.len() && k <= b.len() && a.take(k) == b.take(k) && (
                (k < a.len() && k < b.len() && a[k] < b[k]) || (k == a.len() && k
                    < b.len()));
            if k > 0 {
                assert(a.take(k)[0] == b.take(k)[0]);
            }
        }
        if a[0] < b[0] {
            assert(a.take(0) =~= b.take(0));
        }
    } else {
        let a2 = a.drop_first();
        let b2 = b.drop_first();
        if lex_lt(a, b) {
            let k = choose|k: int|
                #![trigger a.take(k), b.take(k)]
                0 <= k <= a.len() && k <= b.len() && a.take(k) == b.take(k) && (
                (k < a.len() && k < b.len() && a[k] < b[k]) || (k == a.len() && k
                    < b.len()));
            assert(k >= 1);
            assert(a2.take(k - 1) =~= a.take(k).drop_first());
            assert(b2.take(k - 1) =~= b.take(k).drop_first());
            if k < a.len() && k < b.len() {
                assert(a2[k - 1] == a[k] && b2[k - 1] == b[k]);
            }
            assert(lex_lt(a2, b2));
        }
        if lex_lt(a2, b2) {
            let k = choose|k: int|
                #![trigger a2.take(k), b2.take(k)]
                0 <= k <= a2.len() && k <= b2.len() && a2.take(k) == b2.take(k) && (
                (k < a2.len() && k < b2.len() && a2[k] < b2[k]) || (k == a2.len()
                    && k < b2.len()));
            assert(a.take(k + 1) =~= seq![a[0]] + a2.take(k));
            assert(b.take(k + 1) =~= seq![b[0]] + b2.take(k));
            if k < a2.len() && k < b2.len() {
                assert(a2[k] == a[k + 1] && b2[k] == b[k + 1]);
            }
            assert(lex_lt(a, b));
        }
    }
}

/// `lex_lt` is asymmetric.
pub proof fn lemma_lex_lt_asymmetric(a: Seq<char>, b: Seq<char>)
    ensures
        lex_lt(a, b) ==> !lex_lt(b, a),
    decreases a.len(),
{
    lemma_lex_lt_unfold(a, b);
    lemma_lex_lt_unfold(b, a);
    if a.len() > 0 && b.len() > 0 && a[0] == b[0] {
        lemma_lex_lt_asymmetric(a.drop_first(), b.drop_first());
    }
}

/// Not being smaller is transitive: if `c` is smaller than `a`, it is
/// smaller than `b` or `b` is smaller than `a`.
pub proof fn lemma_lex_lt_split(a: Seq<char>, b: Seq<char>, c: Seq<char>)
    ensures
        lex_lt(c, a) ==> lex_lt(c, b) || lex_lt(b, a),
    decreases a.len(),
{
    lemma_lex_lt_unfold(c, a);
    lemma_lex_lt_unfold(c, b);
    lemma_lex_lt_unfold(b, a);
    if a.len() > 0 && b.len() > 0 && c.len() > 0 {
        if a[0] == b[0] && b[0] == c[0] {
            lemma_lex_lt_split(a.drop_first(), b.drop_first(), c.drop_first());
        }
    }
}

/// Decides `lex_lt`.
pub fn str_lt(a: &str, b: &str) -> (res: bool)
    ensures
        res == lex_lt(a@, b@),
{
    let la = a.unicode_len();
    let lb = b.unicode_len();
    let mut i: usize = 0;
    while i < la && i < lb && a.get_char(i) == b.get_char(i)
        invariant
            la == a@.len(),
            lb == b@.len(),
            i <= la,
            i <= lb,
            a@.take(i as int) == b@.take(i as int),
        decreases la - i,
    {
        proof {
            assert(a@.take(i + 1) == a@.take(i as int).push(a@[i as int]));
            assert(b@.take(i + 1) == b@.take(i as int).push(b@[i as int]));
        }
        i = i + 1;
    }
    let res = if i < la && i < lb {
        a.get_char(i) < b.get_char(i)
    } else {
        i == la && i < lb
    };
    proof {
        let k = i as int;
        assert(a@.take(k) == b@.take(k));
        if !res {
            assert forall|j: int|
                0 <= j <= a@.len() && j <= b@.len() && a@.take(j) == b@.take(j) implies !(
                (j < a@.len() && j < b@.len() && a@[j] < b@[j]) || (j == a@.len()
                    && j < b@.len())) by {
                if j < k {
                    assert(a@[j] == a@.take(k)[j]);
                    assert(b@[j] == b@.take(k)[j]);
                } else if j > k {
                    assert(a@[k] == a@.take(j)[k]);
                    assert(b@[k] == b@.take(j)[k]);
                }
            }
        }
    }
    res
}

/// Unicode's `White_Space` property, which `char::is_whitespace` follows.
pub open spec fn is_white_space(c: char) -> bool {
    let u = c as u32;
    (0x09 <= u <= 0x0d) || u == 0x20 || u == 0x85 || u == 0xa0 || u == 0x1680 || (0x2000 <= u
        <= 0x200a) || u == 0x2028 || u == 0x2029 || u == 0x202f || u == 0x205f || u == 0x3000
}

/// Decides `is_white_space`.
pub fn is_white_space_char(c: char) -> (res: bool)
    ensures
        res == is_white_space(c),
{
    let u = c as u32;
    (0x09 <= u && u <= 0x0d) || u == 0x20 || u == 0x85 || u == 0xa0 || u == 0x1680 || (0x2000 <= u
        && u <= 0x200a) || u == 0x2028 || u == 0x2029 || u == 0x202f || u == 0x205f || u == 0x3000
}

/// `s` without its leading white space.
pub open spec fn trim_start_spec(s: Seq<char>) -> Seq<char>
    decreases s.len(),
{
    if s.len() > 0 && is_white_space(s[0]) {
        trim_start_spec(s.drop_first())
    } else {
        s
    }
}

/// `s` without its trailing white space.
pub open spec fn trim_end_spec(s: Seq<char>) -> Seq<char>
    decreases s.len(),
{
    if s.len() > 0 && is_white_space(s.last()) {
        trim_end_spec(s.drop_last())
    } else {
        s
    }
}

/// `s` without leading and trailing white space.
pub open spec fn trim_spec(s: Seq<char>) -> Seq<char> {
    trim_end_spec(trim_start_spec(s))
}

/// Removes leading and trailing white space; see `trim_spec`.
pub fn trim(s: &str) -> (res: String)
    ensures
        res@ == trim_spec(s@),
{
    let n = s.unicode_len();
    let mut i: usize = 0;
    proof {
        assert(s@.subrange(0, n as int) =~= s@);
    }
    while i < n && is_white_space_char(s.get_char(i))
        invariant
            n == s@.len(),
            i <= n,
            trim_start_spec(s@) == trim_start_spec(s@.subrange(i as int, n as int)),
        decreases n - i,
    {
        proof {
            assert(s@.subrange(i as int, n as int).drop_first() =~= s@.subrange(i + 1, n as int));
        }
        i = i + 1;
    }
    let mut j: usize = n;
    proof {
        assert(trim_start_spec(s@.subrange(i as int, n as int)) == s@.subrange(i as int, n as int));
    }
    while j > i && is_white_space_char(s.get_char(j - 1))
        invariant
            n == s@.len(),
            i <= j <= n,
            trim_spec(s@) == trim_end_spec(s@.subrange(i as int, j as int)),
        decreases j - i,
    {
        proof {
            assert(s@.subrange(i as int, j as int).drop_last() =~= s@.subrange(i as int, j - 1));
        }
        j = j - 1;
    }
    s.substring_char(i, j).to_owned()
}

/// Splits `s` at every newline: the finished pieces, and the piece being
/// read.
pub open spec fn line_fold(s: Seq<char>) -> (Seq<Seq<char>>, Seq<char>)
    decreases s.len(),
{
    if s.len() == 0 {
        (Seq::empty(), Seq::empty())
    } else {
        let (done, cur) = line_fold(s.drop_last());
        if s.last() == '\n' {
            (done.push(cur), Seq::empty())
        } else {
            (done, cur.push(s.last()))
        }
    }
}

/// The pieces of `s` between newlines (an empty piece after a final
/// newline, which holds no words, included).
pub open spec fn lines_spec(s: Seq<char>) -> Seq<Seq<char>> {
    line_fold(s).0.push(line_fold(s).1)
}

/// Splits `s` into words: the finished words, and the word being read.
pub open spec fn word_fold(s: Seq<char>) -> (Seq<Seq<char>>, Seq<char>)
    decreases s.len(),
{
    if s.len() == 0 {
        (Seq::empty(), Seq::empty())
    } else {
        let (done, cur) = word_fold(s.drop_last());
        if is_white_space(s.last()) {
            if cur.len() > 0 {
                (done.push(cur), Seq::empty())
            } else {
                (done, Seq::empty())
            }
        } else {
            (done, cur.push(s.last()))
        }
    }
}

/// The maximal runs of characters other than white space in `s`.
pub open spec fn words_spec(s: Seq<char>) -> Seq<Seq<char>> {
    if word_fold(s).1.len() > 0 {
        word_fold(s).0.push(word_fold(s).1)
    } else {
        word_fold(s).0
    }
}

/// Splits `s` at every newline; see `lines_spec`.
pub fn split_lines(s: &str) -> (res: Vec<String>)
    ensures
        res@.map_values(|x: String| x@) == lines_spec(s@),
{
    let n = s.unicode_len();
    let mut done: Vec<String> = Vec::new();
    let mut start: usize = 0;
    let mut i: usize = 0;
    proof {
        assert(s@.take(0) =~= Seq::<char>::empty());
        assert(s@.subrange(0, 0) =~= Seq::<char>::empty());
        assert(done@.map_values(|x: String| x@) =~= Seq::<Seq<char>>::empty());
    }
    while i < n
        invariant
            n == s@.len(),
            start <= i <= n,
            done@.map_values(|x: String| x@) == line_fold(s@.take(i as int)).0,
            s@.subrange(start as int, i as int) == line_fold(s@.take(i as int)).1,
        decreases n - i,
    {
        let c = s.get_char(i);
        proof {
            let t = s@.take(i + 1);
            assert(t.drop_last() =~= s@.take(i as int));
            assert(t.last() == c);
        }
        if c == '\n' {
            let ghost before = done@;
            done.push(s.substring_char(start, i).to_owned());
            proof {
                assert(done@.map_values(|x: String| x@) =~= before.map_values(|x: String| x@).push(
                    s@.subrange(start as int, i as int),
                ));
                assert(s@.subrange(i + 1, i + 1) =~= Seq::<char>::empty());
            }
            start = i + 1;
        } else {
            proof {
                assert(s@.subrange(start as int, i + 1) =~= s@.subrange(start as int, i as int).push(c));
            }
        }
        i = i + 1;
    }
    let ghost before = done@;
    done.push(s.substring_char(start, n).to_owned());
    proof {
        assert(s@.take(n as int) =~= s@);
        assert(done@.map_values(|x: String| x@) =~= before.map_values(|x: String| x@).push(
            s@.subrange(start as int, n as int),
        ));
    }
    done
}

/// Splits `s` into words; see `words_spec`.
pub fn split_words(s: &str) -> (res: Vec<String>)
    ensures
        res@.map_values(|x: String| x@) == words_spec(s@),
{
    let n = s.unicode_len();
    let mut done: Vec<String> = Vec::new();
    let mut start: usize = 0;
    let mut i: usize = 0;
    proof {
        assert(s@.take(0) =~= Seq::<char>::empty());
        assert(s@.subrange(0, 0) =~= Seq::<char>::empty());
        assert(done@.map_values(|x: String| x@) =~= Seq::<Seq<char>>::empty());
    }
    while i < n
        invariant
            n == s@.len(),
            start <= i <= n,
            done@.map_values(|x: String| x@) == word_fold(s@.take(i as int)).0,
            s@.subrange(start as int, i as int) == word_fold(s@.take(i as int)).1,
        decreases n - i,
    {
        let c = s.get_char(i);
        proof {
            let t = s@.take(i + 1);
            assert(t.drop_last() =~= s@.take(i as int));
            assert(t.last() == c);
        }
        if is_white_space_char(c) {
            if start < i {
                let ghost before = done@;
                done.push(s.substring_char(start, i).to_owned());
                proof {
                    assert(done@.map_values(|x: String| x@) =~= before.map_values(|x: String| x@).push(
                        s@.subrange(start as int, i as int),
                    ));
                }
            }
            proof {
                assert(s@.subrange(i + 1, i + 1) =~= Seq::<char>::empty());
            }
            start = i + 1;
        } else {
            proof {
                assert(s@.subrange(start as int, i + 1) =~= s@.subrange(start as int, i as int).push(c));
            }
        }
        i = i + 1;
    }
    proof {
        assert(s@.take(n as int) =~= s@);
    }
    if start < n {
        let ghost before = done@;
        done.push(s.substring_char(start, n).to_owned());
        proof {
            assert(done@.map_values(|x: String| x@) =~= before.map_values(|x: String| x@).push(
                s@.subrange(start as int, n as int),
            ));
        }
    }
    done
}

} // verus!
