//! Exact string work on paths and names: final path components, stems and
//! extensions, decimal rendering, and the derived output names of the
//! command line.

use vstd::prelude::*;

verus! {

/// The final path component: everything after the last `/`, or the whole
/// path when it has none.
pub open spec fn file_name_spec(path: Seq<char>) -> Seq<char> {
    match path.index_of_last('/') {
        Some(i) => path.subrange(i + 1, path.len() as int),
        None => path,
    }
}

/// The part of a file name before its extension: the whole name when there
/// is no dot, or when the only dot leads the name.
pub open spec fn stem_spec(name: Seq<char>) -> Seq<char> {
    match name.index_of_last('.') {
        Some(i) => if i > 0 {
            name.subrange(0, i)
        } else {
            name
        },
        None => name,
    }
}

/// The extension of a file name: what follows the last dot, empty when the
/// name gives none.
pub open spec fn ext_spec(name: Seq<char>) -> Seq<char> {
    match name.index_of_last('.') {
        Some(i) => if i > 0 {
            name.subrange(i + 1, name.len() as int)
        } else {
            Seq::empty()
        },
        None => Seq::empty(),
    }
}

pub open spec fn digit_char(d: nat) -> char {
    if d == 0 {
        '0'
    } else if d == 1 {
        '1'
    } else if d == 2 {
        '2'
    } else if d == 3 {
        '3'
    } else if d == 4 {
        '4'
    } else if d == 5 {
        '5'
    } else if d == 6 {
        '6'
    } else if d == 7 {
        '7'
    } else if d == 8 {
        '8'
    } else {
        '9'
    }
}

/// The usual decimal rendering of a natural number, no leading zeros.
pub open spec fn dec_str_spec(n: nat) -> Seq<char>
    decreases n,
{
    if n < 10 {
        seq![digit_char(n)]
    } else {
        dec_str_spec(n / 10).push(digit_char(n % 10))
    }
}

/// A zoom in hundredths rendered to two decimal places with the decimal
/// point replaced by a hyphen: 150 becomes `1-50`.
pub open spec fn zoom_tag_spec(zoom100: nat) -> Seq<char> {
    dec_str_spec(zoom100 / 100) + seq![
        '-',
        digit_char((zoom100 % 100) / 10),
        digit_char(zoom100 % 10),
    ]
}

/// The default output name for input `base.ext` and a zoom:
/// `base_preproc_z<zoom tag>.ext`.
pub open spec fn derived_output_name_spec(input: Seq<char>, zoom100: nat) -> Seq<char>
    recommends
        input.index_of_last('.') is Some,
{
    let i = input.index_of_last('.')->Some_0;
    input.subrange(0, i) + "_preproc_z"@ + zoom_tag_spec(zoom100) + seq!['.'] + input.subrange(
        i + 1,
        input.len() as int,
    )
}

proof fn lemma_index_of_last_from_characterization(s: Seq<char>, c: char, i: int)
    requires
        0 <= i < s.len(),
        s[i] == c,
        forall|j: int| i < j < s.len() ==> s[j] != c,
    ensures
        s.index_of_last(c) == Some(i),
{
    assert(s.contains(c));
    s.index_of_last_ensures(c);
    let k = s.index_of_last(c)->Some_0;
    if k < i {
        assert(s[i] != c);
    }
    if k > i {
        assert(s[k] != c);
    }
}

proof fn lemma_index_of_last_none(s: Seq<char>, c: char)
    requires
        forall|j: int| 0 <= j < s.len() ==> s[j] != c,
    ensures
        s.index_of_last(c) is None,
{
    s.index_of_last_ensures(c);
    if s.index_of_last(c) is Some {
        let k = s.index_of_last(c)->Some_0;
        assert(s[k] != c);
    }
}

/// Index of the last occurrence of `c` in `s`, by character position.
pub fn rfind_char(s: &str, c: char) -> (r: Option<usize>)
    ensures
        match r {
            Some(i) => s@.index_of_last(c) == Some(i as int),
            None => s@.index_of_last(c) is None,
        },
{
    let n = s.unicode_len();
    let mut i = n;
    while i > 0
        invariant
            i <= n,
            n == s@.len(),
            forall|j: int| i <= j < s@.len() ==> s@[j] != c,
        decreases i,
    {
        i = i - 1;
        if s.get_char(i) == c {
            proof {
                lemma_index_of_last_from_characterization(s@, c, i as int);
            }
            return Some(i);
        }
    }
    proof {
        lemma_index_of_last_none(s@, c);
    }
    None
}

/// The final path component of `path`.
pub fn file_name_of(path: &str) -> (r: String)
    ensures
        r@ == file_name_spec(path@),
{
    let n = path.unicode_len();
    match rfind_char(path, '/') {
        Some(i) => {
            proof {
                path@.index_of_last_ensures('/');
            }
            let sub = path.substring_char(i + 1, n);
            String::from_str(sub)
        },
        None => String::from_str(path),
    }
}

/// Splits a file name into its stem and its extension (the extension comes
/// back empty when the name gives none).
pub fn split_stem_ext(name: &str) -> (r: (String, String))
    ensures
        r.0@ == stem_spec(name@),
        r.1@ == ext_spec(name@),
{
    let n = name.unicode_len();
    match rfind_char(name, '.') {
        Some(i) => {
            proof {
                name@.index_of_last_ensures('.');
            }
            if i > 0 {
                let stem = name.substring_char(0, i);
                let ext = name.substring_char(i + 1, n);
                (String::from_str(stem), String::from_str(ext))
            } else {
                (String::from_str(name), String::new())
            }
        },
        None => (String::from_str(name), String::new()),
    }
}

/// A directory path with one more component appended, a separator between
/// them unless the directory is empty or already ends in one.
pub open spec fn join_path_spec(dir: Seq<char>, name: Seq<char>) -> Seq<char> {
    if dir.len() == 0 {
        name
    } else if dir.last() == '/' {
        dir + name
    } else {
        dir + seq!['/'] + name
    }
}

/// Appends a component to a directory path.
pub fn join_path(dir: &str, name: &str) -> (r: String)
    ensures
        r@ == join_path_spec(dir@, name@),
{
    let n = dir.unicode_len();
    let mut out = String::from_str(dir);
    if n > 0 && dir.get_char(n - 1) != '/' {
        out.append("/");
    }
    out.append(name);
    proof {
        reveal_strlit("/");
        assert(out@ =~= join_path_spec(dir@, name@));
    }
    out
}

/// The path split at every `/`, empty segments dropped.
pub open spec fn split_path_spec(p: Seq<char>) -> Seq<Seq<char>>
    decreases p.len(),
{
    if p.len() == 0 {
        Seq::empty()
    } else {
        match p.index_of_first('/') {
            Some(i) => if 0 <= i < p.len() {
                let head = p.subrange(0, i);
                let tail = split_path_spec(p.subrange(i + 1, p.len() as int));
                if head.len() == 0 {
                    tail
                } else {
                    seq![head] + tail
                }
            } else {
                // a found index is always in range; this branch only keeps
                // the recursion well-founded
                seq![p]
            },
            None => seq![p],
        }
    }
}

/// The components of a path: its `/`-separated segments, preceded by a root
/// component when the path is absolute.
pub open spec fn path_components_spec(p: Seq<char>) -> Seq<Seq<char>> {
    if p.len() > 0 && p[0] == '/' {
        seq!["/"@] + split_path_spec(p)
    } else {
        split_path_spec(p)
    }
}

proof fn lemma_index_of_first_from_characterization(s: Seq<char>, c: char, i: int)
    requires
        0 <= i < s.len(),
        s[i] == c,
        forall|j: int| 0 <= j < i ==> s[j] != c,
    ensures
        s.index_of_first(c) == Some(i),
{
    assert(s.contains(c));
    s.index_of_first_ensures(c);
    let k = s.index_of_first(c)->Some_0;
    if k < i {
        assert(s[k] != c);
    }
    if k > i {
        assert(s[i] != c);
    }
}

proof fn lemma_index_of_first_none(s: Seq<char>, c: char)
    requires
        forall|j: int| 0 <= j < s.len() ==> s[j] != c,
    ensures
        s.index_of_first(c) is None,
{
    s.index_of_first_ensures(c);
    if s.index_of_first(c) is Some {
        let k = s.index_of_first(c)->Some_0;
        assert(s[k] != c);
    }
}

/// Index of the first occurrence of `c` in `s` at or after `from`.
pub fn find_char_from(s: &str, from: usize, c: char) -> (r: Option<usize>)
    requires
        from <= s@.len(),
    ensures
        match r {
            Some(j) => from <= j < s@.len() && s@[j as int] == c && (forall|k: int|
                from <= k < j ==> s@[k] != c),
            None => forall|k: int| from <= k < s@.len() ==> s@[k] != c,
        },
{
    let n = s.unicode_len();
    let mut j = from;
    while j < n
        invariant
            from <= j <= n,
            n == s@.len(),
            forall|k: int| from <= k < j ==> s@[k] != c,
        decreases n - j,
    {
        if s.get_char(j) == c {
            return Some(j);
        }
        j = j + 1;
    }
    None
}

/// Splits a path at every `/`, dropping empty segments and keeping a root
/// component for an absolute path.
pub fn split_path(p: &str) -> (r: Vec<String>)
    ensures
        r@.map_values(|s: String| s@) == path_components_spec(p@),
{
    let n = p.unicode_len();
    let mut parts: Vec<String> = Vec::new();
    if n > 0 && p.get_char(0) == '/' {
        parts.push(String::from_str("/"));
    }
    proof {
        reveal_strlit("/");
        assert(p@.subrange(0, n as int) =~= p@);
        if n > 0 && p@[0] == '/' {
            assert(parts@.map_values(|s: String| s@) =~= seq!["/"@]);
            assert(path_components_spec(p@) =~= parts@.map_values(|s: String| s@)
                + split_path_spec(p@.subrange(0, n as int)));
        } else {
            assert(parts@.map_values(|s: String| s@) =~= Seq::<Seq<char>>::empty());
            assert(path_components_spec(p@) =~= parts@.map_values(|s: String| s@)
                + split_path_spec(p@.subrange(0, n as int)));
        }
    }
    let mut pos: usize = 0;
    while pos < n
        invariant
            pos <= n,
            n == p@.len(),
            path_components_spec(p@) == parts@.map_values(|s: String| s@) + split_path_spec(
                p@.subrange(pos as int, n as int),
            ),
        decreases n - pos,
    {
        let ghost su = p@.subrange(pos as int, n as int);
        match find_char_from(p, pos, '/') {
            Some(j) => {
                proof {
                    assert(su[j - pos] == '/');
                    assert(forall|m: int| 0 <= m < j - pos ==> su[m] != '/');
                    lemma_index_of_first_from_characterization(su, '/', j - pos);
                    assert(su.subrange(0, j - pos) =~= p@.subrange(pos as int, j as int));
                    assert(su.subrange(j - pos + 1, su.len() as int) =~= p@.subrange(
                        j + 1 as int,
                        n as int,
                    ));
                }
                if j > pos {
                    let seg = p.substring_char(pos, j);
                    let ghost prev = parts@;
                    parts.push(String::from_str(seg));
                    proof {
                        assert(parts@.map_values(|s: String| s@) =~= prev.map_values(
                            |s: String| s@,
                        ).push(seg@));
                        assert(path_components_spec(p@) =~= parts@.map_values(|s: String| s@)
                            + split_path_spec(p@.subrange(j + 1 as int, n as int)));
                    }
                } else {
                    proof {
                        assert(path_components_spec(p@) =~= parts@.map_values(|s: String| s@)
                            + split_path_spec(p@.subrange(j + 1 as int, n as int)));
                    }
                }
                pos = j + 1;
            },
            None => {
                let seg = p.substring_char(pos, n);
                let ghost prev = parts@;
                parts.push(String::from_str(seg));
                proof {
                    lemma_index_of_first_none(su, '/');
                    assert(split_path_spec(su) =~= seq![su]);
                    assert(parts@.map_values(|s: String| s@) =~= prev.map_values(
                        |s: String| s@,
                    ).push(seg@));
                    assert(p@.subrange(n as int, n as int) =~= Seq::<char>::empty());
                    assert(split_path_spec(p@.subrange(n as int, n as int))
                        =~= Seq::<Seq<char>>::empty());
                    assert(path_components_spec(p@) =~= parts@.map_values(|s: String| s@)
                        + split_path_spec(p@.subrange(n as int, n as int)));
                }
                pos = n;
            },
        }
    }
    proof {
        assert(p@.subrange(n as int, n as int) =~= Seq::<char>::empty());
        assert(split_path_spec(p@.subrange(pos as int, n as int)) =~= Seq::<Seq<char>>::empty());
        assert(parts@.map_values(|s: String| s@) + Seq::<Seq<char>>::empty() =~= parts@.map_values(
            |s: String| s@,
        ));
    }
    parts
}

fn digit_str(d: u32) -> (r: &'static str)
    requires
        d < 10,
    ensures
        r@ == seq![digit_char(d as nat)],
{
    proof {
        reveal_strlit("0");
        reveal_strlit("1");
        reveal_strlit("2");
        reveal_strlit("3");
        reveal_strlit("4");
        reveal_strlit("5");
        reveal_strlit("6");
        reveal_strlit("7");
        reveal_strlit("8");
        reveal_strlit("9");
    }
    let r: &'static str = if d == 0 {
        "0"
    } else if d == 1 {
        "1"
    } else if d == 2 {
        "2"
    } else if d == 3 {
        "3"
    } else if d == 4 {
        "4"
    } else if d == 5 {
        "5"
    } else if d == 6 {
        "6"
    } else if d == 7 {
        "7"
    } else if d == 8 {
        "8"
    } else {
        "9"
    };
    proof {
        assert(r@ =~= seq![digit_char(d as nat)]);
    }
    r
}

/// Renders `n` in decimal.
pub fn u32_to_string(n: u32) -> (r: String)
    ensures
        r@ == dec_str_spec(n as nat),
    decreases n,
{
    if n < 10 {
        String::from_str(digit_str(n))
    } else {
        let mut s = u32_to_string(n / 10);
        s.append(digit_str(n % 10));
        proof {
            assert(s@ =~= dec_str_spec((n / 10) as nat).push(digit_char((n % 10) as nat)));
        }
        s
    }
}

/// Renders a zoom given in hundredths to two decimal places, with the
/// decimal point replaced by a hyphen.
pub fn zoom_tag(zoom100: u32) -> (r: String)
    ensures
        r@ == zoom_tag_spec(zoom100 as nat),
{
    let mut s = u32_to_string(zoom100 / 100);
    s.append("-");
    s.append(digit_str((zoom100 % 100) / 10));
    s.append(digit_str(zoom100 % 10));
    proof {
        reveal_strlit("-");
        assert(s@ =~= zoom_tag_spec(zoom100 as nat));
    }
    s
}

/// Derives the default output name for one zoom value from the input path:
/// `base.ext` becomes `base_preproc_z<zoom tag>.ext`.  Fails exactly when
/// the input path has no dot to split at.
pub fn derived_output_name(input: &str, zoom100: u32) -> (r: Option<String>)
    ensures
        match r {
            Some(name) => input@.index_of_last('.') is Some && name@ == derived_output_name_spec(
                input@,
                zoom100 as nat,
            ),
            None => input@.index_of_last('.') is None,
        },
{
    let n = input.unicode_len();
    match rfind_char(input, '.') {
        Some(i) => {
            proof {
                input@.index_of_last_ensures('.');
            }
            let mut s = String::from_str(input.substring_char(0, i));
            s.append("_preproc_z");
            let tag = zoom_tag(zoom100);
            s.append(tag.as_str());
            s.append(".");
            s.append(input.substring_char(i + 1, n));
            proof {
                reveal_strlit(".");
                assert(s@ =~= derived_output_name_spec(input@, zoom100 as nat));
            }
            Some(s)
        },
        None => None,
    }
}

} // verus!
