//! A wasp project: the dependency list in `project.wasp`, and the order
//! in which the source files of a project and of its vendored packages
//! make up one program.
use vstd::prelude::*;
use crate::text::{chars_of, string_from_vec, string_of_range};
use crate::semantics::{
    first_index, lemma_first_index_is, lemma_first_index_none, lemma_first_index_bound,
};
use crate::compiler::strs;

verus! {

// ---------------------------------------------------------------------
// Fields and lines
// ---------------------------------------------------------------------

/// The pieces of `s` between the occurrences of `c` (as `str::split`).
pub open spec fn split_on(s: Seq<char>, c: char) -> Seq<Seq<char>>
    decreases s.len(),
{
    if s.len() == 0 {
        seq![seq![]]
    } else {
        let rest = split_on(s.drop_last(), c);
        if s.last() == c {
            rest.push(seq![])
        } else {
            rest.update(rest.len() - 1, rest.last().push(s.last()))
        }
    }
}

/// The text of `s` before the first `c`.
pub open spec fn first_field(s: Seq<char>, c: char) -> Seq<char> {
    match first_index(s, c) {
        Some(i) => s.take(i),
        None => s,
    }
}

/// A line without the `\r` of a `\r\n` line break.
pub open spec fn strip_cr(l: Seq<char>) -> Seq<char> {
    if l.len() > 0 && l.last() == '\r' {
        l.drop_last()
    } else {
        l
    }
}

/// The lines of a text as std's `BufRead::lines` reads them: the text is
/// cut at each `\n`; a line that a `\n` ends loses a `\r` before it; an
/// empty rest after the last `\n` is no line.
pub open spec fn lines_of(s: Seq<char>) -> Seq<Seq<char>> {
    let ps = split_on(s, '\n');
    let ended = ps.drop_last().map_values(|l: Seq<char>| strip_cr(l));
    if ps.last().len() == 0 {
        ended
    } else {
        ended.push(ps.last())
    }
}

proof fn lemma_split_on_len(s: Seq<char>, c: char)
    ensures
        split_on(s, c).len() >= 1,
    decreases s.len(),
{
    if s.len() > 0 {
        lemma_split_on_len(s.drop_last(), c);
    }
}

/// The pieces of `s` between the occurrences of `c`.
pub fn split_fields(s: &str, c: char) -> (r: Vec<String>)
    ensures
        strs(r@) == split_on(s@, c),
{
    let chars = chars_of(s);
    let mut pieces: Vec<String> = Vec::new();
    let mut cur: Vec<char> = Vec::new();
    for i in 0..chars.len()
        invariant
            chars@ == s@,
            strs(pieces@).push(cur@) == split_on(chars@.take(i as int), c),
    {
        let ghost before = strs(pieces@).push(cur@);
        assert(chars@.take(i + 1).drop_last() =~= chars@.take(i as int));
        proof {
            lemma_split_on_len(chars@.take(i as int), c);
        }
        if chars[i] == c {
            let done = string_from_vec(cur);
            pieces.push(done);
            cur = Vec::new();
            assert(strs(pieces@).push(cur@) =~= before.push(seq![]));
        } else {
            cur.push(chars[i]);
            assert(strs(pieces@).push(cur@) =~= before.update(
                before.len() - 1,
                before.last().push(chars@[i as int]),
            ));
        }
    }
    assert(chars@.take(chars.len() as int) =~= chars@);
    let done = string_from_vec(cur);
    pieces.push(done);
    assert(strs(pieces@) =~= split_on(s@, c));
    pieces
}

/// The text of `s` before the first `c`.
pub fn first_field_of(s: &str, c: char) -> (r: String)
    ensures
        r@ == first_field(s@, c),
{
    let chars = chars_of(s);
    let mut i: usize = 0;
    while i < chars.len()
        invariant
            chars@ == s@,
            i <= chars.len(),
            forall|j: int| 0 <= j < i ==> chars@[j] != c,
        decreases chars.len() - i,
    {
        if chars[i] == c {
            proof {
                lemma_first_index_is(s@, c, i as int);
            }
            return string_of_range(&chars, 0, i);
        }
        i = i + 1;
    }
    proof {
        lemma_first_index_none(s@, c);
    }
    string_of_range(&chars, 0, chars.len())
}

/// A line without the `\r` of a `\r\n` line break.
fn strip_cr_of(l: &String) -> (r: String)
    ensures
        r@ == strip_cr(l@),
{
    let chars = chars_of(l.as_str());
    if chars.len() > 0 && chars[chars.len() - 1] == '\r' {
        string_of_range(&chars, 0, chars.len() - 1)
    } else {
        string_of_range(&chars, 0, chars.len())
    }
}

/// The lines of a text, as std's `BufRead::lines` reads them.
pub fn lines(s: &str) -> (r: Vec<String>)
    ensures
        strs(r@) == lines_of(s@),
{
    let ps = split_fields(s, '\n');
    proof {
        lemma_split_on_len(s@, '\n');
    }
    let n = ps.len();
    let mut out: Vec<String> = Vec::new();
    for i in 0..n - 1
        invariant
            n == ps.len(),
            n >= 1,
            strs(ps@) == split_on(s@, '\n'),
            out@.len() == i,
            forall|j: int| 0 <= j < i ==> (#[trigger] out@[j])@ == strip_cr(ps@[j]@),
    {
        out.push(strip_cr_of(&ps[i]));
    }
    let ghost ended = split_on(s@, '\n').drop_last().map_values(|l: Seq<char>| strip_cr(l));
    assert(strs(out@) =~= ended);
    if ps[n - 1].as_str().unicode_len() != 0 {
        let last = ps[n - 1].clone();
        out.push(last);
        assert(strs(out@) =~= ended.push(split_on(s@, '\n').last()));
    }
    out
}

/// The fields of each line of `project.wasp` (a package's name and where
/// it comes from, separated by spaces).
pub fn project_entries(text: &str) -> (r: Vec<Vec<String>>)
    ensures
        r@.len() == lines_of(text@).len(),
        forall|i: int|
            0 <= i < r@.len() ==> strs(#[trigger] r@[i]@) == split_on(lines_of(text@)[i], ' '),
{
    let ls = lines(text);
    let mut out: Vec<Vec<String>> = Vec::new();
    for i in 0..ls.len()
        invariant
            strs(ls@) == lines_of(text@),
            out@.len() == i,
            forall|j: int|
                0 <= j < i ==> strs(#[trigger] out@[j]@) == split_on(lines_of(text@)[j], ' '),
    {
        out.push(split_fields(ls[i].as_str(), ' '));
    }
    out
}

/// The names of the packages of `project.wasp`: the first field of each
/// line.
pub fn project_packages(text: &str) -> (r: Vec<String>)
    ensures
        strs(r@) == lines_of(text@).map_values(|l: Seq<char>| first_field(l, ' ')),
{
    let ls = lines(text);
    let mut out: Vec<String> = Vec::new();
    for i in 0..ls.len()
        invariant
            strs(ls@) == lines_of(text@),
            out@.len() == i,
            forall|j: int|
                0 <= j < i ==> (#[trigger] out@[j])@ == first_field(lines_of(text@)[j], ' '),
    {
        out.push(first_field_of(ls[i].as_str(), ' '));
    }
    assert(strs(out@) =~= lines_of(text@).map_values(|l: Seq<char>| first_field(l, ' ')));
    out
}

// ---------------------------------------------------------------------
// The order of source files
// ---------------------------------------------------------------------

/// A file of a vendored package: its path starts with `./vendor/`.
pub open spec fn is_vendor(f: Seq<char>) -> bool {
    "./vendor/"@.is_prefix_of(f)
}

/// The package a vendored file belongs to: the directory right under
/// `./vendor/`.
pub open spec fn package_of(f: Seq<char>) -> Seq<char> {
    first_field(f.skip(9), '/')
}

/// The place of a vendored file's package among the project's packages.
pub open spec fn rank(f: Seq<char>, pkgs: Seq<Seq<char>>) -> Option<int> {
    first_index(pkgs, package_of(f))
}

/// The vendored files whose package has the place `p` (or no place).
pub open spec fn group(files: Seq<Seq<char>>, pkgs: Seq<Seq<char>>, p: Option<int>) -> Seq<
    Seq<char>,
> {
    files.filter(in_group(pkgs, p))
}

/// Whether a file is a vendored file whose package has the place `p`.
pub open spec fn in_group(pkgs: Seq<Seq<char>>, p: Option<int>) -> spec_fn(Seq<char>) -> bool {
    |f: Seq<char>| is_vendor(f) && rank(f, pkgs) == p
}

/// Whether a file is one of the project's own.
pub open spec fn is_own() -> spec_fn(Seq<char>) -> bool {
    |f: Seq<char>| !is_vendor(f)
}

proof fn lemma_filter_step(s: Seq<Seq<char>>, i: int, pred: spec_fn(Seq<char>) -> bool)
    requires
        0 <= i < s.len(),
    ensures
        s.take(i + 1).filter(pred) == if pred(s[i]) {
            s.take(i).filter(pred).push(s[i])
        } else {
            s.take(i).filter(pred)
        },
{
    reveal(Seq::filter);
    assert(s.take(i + 1).drop_last() =~= s.take(i));
}

/// The vendored files of the first `n` packages, package by package.
pub open spec fn groups(files: Seq<Seq<char>>, pkgs: Seq<Seq<char>>, n: int) -> Seq<Seq<char>>
    decreases n,
{
    if n <= 0 {
        seq![]
    } else {
        groups(files, pkgs, n - 1) + group(files, pkgs, Some(n - 1))
    }
}

/// The order in which a project's files are read: vendored files first,
/// package by package in the order of `project.wasp` (those of unlisted
/// packages after them), then the project's own files; within each part,
/// files keep the order in which they were found.
pub open spec fn source_order(files: Seq<Seq<char>>, pkgs: Seq<Seq<char>>) -> Seq<Seq<char>> {
    groups(files, pkgs, pkgs.len() as int) + group(files, pkgs, None) + files.filter(is_own())
}

proof fn lemma_filter_push(s: Seq<Seq<char>>, x: Seq<char>, pred: spec_fn(Seq<char>) -> bool)
    ensures
        s.push(x).filter(pred) == if pred(x) {
            s.filter(pred).push(x)
        } else {
            s.filter(pred)
        },
{
    reveal(Seq::filter);
    assert(s.push(x).drop_last() =~= s);
}

/// Whether a file falls in one of the groups of the first `n` packages.
pub open spec fn in_groups(f: Seq<char>, pkgs: Seq<Seq<char>>, n: int) -> bool {
    &&& is_vendor(f)
    &&& (rank(f, pkgs) matches Some(r) && 0 <= r < n)
}

proof fn lemma_groups_empty(pkgs: Seq<Seq<char>>, n: int)
    ensures
        groups(Seq::empty(), pkgs, n) =~= Seq::<Seq<char>>::empty(),
    decreases n,
{
    reveal(Seq::filter);
    if n > 0 {
        lemma_groups_empty(pkgs, n - 1);
    }
}

proof fn lemma_groups_push(s: Seq<Seq<char>>, x: Seq<char>, pkgs: Seq<Seq<char>>, n: int)
    ensures
        groups(s.push(x), pkgs, n).to_multiset() =~= if in_groups(x, pkgs, n) {
            groups(s, pkgs, n).to_multiset().insert(x)
        } else {
            groups(s, pkgs, n).to_multiset()
        },
    decreases n,
{
    broadcast use vstd::seq_lib::lemma_multiset_commutative, vstd::seq_lib::to_multiset_build;
    broadcast use vstd::multiset::group_multiset_axioms;

    if n > 0 {
        lemma_groups_push(s, x, pkgs, n - 1);
        lemma_filter_push(s, x, in_group(pkgs, Some(n - 1)));
        let a = groups(s, pkgs, n - 1);
        let b = group(s, pkgs, Some(n - 1));
        assert(groups(s, pkgs, n).to_multiset() =~= a.to_multiset().add(b.to_multiset()));
        assert(groups(s.push(x), pkgs, n).to_multiset() =~= groups(s.push(x), pkgs, n - 1).to_multiset().add(
            group(s.push(x), pkgs, Some(n - 1)).to_multiset(),
        ));
    }
}

/// Ordering a project's files only reorders them: each file is read once.
pub proof fn law_sources_permuted(files: Seq<Seq<char>>, pkgs: Seq<Seq<char>>)
    ensures
        source_order(files, pkgs).to_multiset() =~= files.to_multiset(),
    decreases files.len(),
{
    broadcast use vstd::seq_lib::lemma_multiset_commutative, vstd::seq_lib::to_multiset_build;
    broadcast use vstd::multiset::group_multiset_axioms;

    if files.len() == 0 {
        reveal(Seq::filter);
        lemma_groups_empty(pkgs, pkgs.len() as int);
        assert(files =~= Seq::<Seq<char>>::empty());
        assert(source_order(files, pkgs) =~= Seq::<Seq<char>>::empty());
    } else {
        let s = files.drop_last();
        let x = files.last();
        assert(files =~= s.push(x));
        law_sources_permuted(s, pkgs);
        lemma_groups_push(s, x, pkgs, pkgs.len() as int);
        lemma_filter_push(s, x, in_group(pkgs, None));
        lemma_filter_push(s, x, is_own());
        lemma_first_index_bound(pkgs, package_of(x));
        let g = groups(s, pkgs, pkgs.len() as int);
        let u = group(s, pkgs, None);
        let o = s.filter(is_own());
        assert(source_order(s, pkgs).to_multiset() =~= g.to_multiset().add(u.to_multiset()).add(
            o.to_multiset(),
        ));
        assert(source_order(files, pkgs).to_multiset() =~= groups(files, pkgs, pkgs.len() as int).to_multiset().add(
            group(files, pkgs, None).to_multiset(),
        ).add(files.filter(is_own()).to_multiset()));
    }
}

/// The package of a vendored file `./vendor/P/rest` is `P`, the directory
/// right under `./vendor/`, however many directories `rest` holds; its place
/// among the project's packages is the place of `P`.
pub proof fn law_package_of_vendored_file(
    pkg: Seq<char>,
    rest: Seq<char>,
    pkgs: Seq<Seq<char>>,
)
    requires
        !pkg.contains('/'),
    ensures
        is_vendor("./vendor/"@ + pkg + seq!['/'] + rest),
        package_of("./vendor/"@ + pkg + seq!['/'] + rest) == pkg,
        rank("./vendor/"@ + pkg + seq!['/'] + rest, pkgs) == first_index(pkgs, pkg),
{
    reveal_strlit("./vendor/");
    let f = "./vendor/"@ + pkg + seq!['/'] + rest;
    let t = pkg + seq!['/'] + rest;
    assert(f.skip(9) =~= t);
    assert("./vendor/"@ =~= f.subrange(0, 9));
    let i = pkg.len() as int;
    assert forall|j: int| 0 <= j < i implies t[j] != '/' by {
        assert(t[j] == pkg[j]);
    }
    assert(crate::semantics::is_first(t, '/', i));
    lemma_first_index_is(t, '/', i);
    assert(t.take(i) =~= pkg);
}

/// Whether `f` is the path of a vendored file.
pub fn is_vendor_path(f: &String) -> (r: bool)
    ensures
        r == is_vendor(f@),
{
    let cs = chars_of(f.as_str());
    let pre = chars_of("./vendor/");
    if cs.len() < pre.len() {
        return false;
    }
    let mut i: usize = 0;
    while i < pre.len()
        invariant
            cs@ == f@,
            pre@ == "./vendor/"@,
            pre.len() <= cs.len(),
            i <= pre.len(),
            forall|j: int| 0 <= j < i ==> cs@[j] == pre@[j],
        decreases pre.len() - i,
    {
        if cs[i] != pre[i] {
            return false;
        }
        i = i + 1;
    }
    assert(f@.take(pre@.len() as int) =~= pre@);
    true
}

/// The package of a vendored file.
fn package_of_path(f: &String) -> (r: String)
    requires
        is_vendor(f@),
    ensures
        r@ == package_of(f@),
{
    proof {
        reveal_strlit("./vendor/");
    }
    let cs = chars_of(f.as_str());
    let rest = string_of_range(&cs, 9, cs.len());
    assert(rest@ =~= f@.skip(9));
    first_field_of(rest.as_str(), '/')
}

/// The position of the first `x` in `v`.
fn position_of(v: &Vec<String>, x: &String) -> (r: Option<usize>)
    ensures
        match r {
            Some(i) => first_index(strs(v@), x@) == Some(i as int),
            None => first_index(strs(v@), x@) is None,
        },
{
    let mut i: usize = 0;
    while i < v.len()
        invariant
            i <= v.len(),
            forall|j: int| 0 <= j < i ==> strs(v@)[j] != x@,
        decreases v.len() - i,
    {
        if v[i] == *x {
            proof {
                lemma_first_index_is(strs(v@), x@, i as int);
            }
            return Some(i);
        }
        i = i + 1;
    }
    proof {
        lemma_first_index_none(strs(v@), x@);
    }
    None
}

pub open spec fn opt_int(o: Option<usize>) -> Option<int> {
    match o {
        Some(i) => Some(i as int),
        None => None,
    }
}

/// Appends the vendored files whose package has the place `p`, knowing
/// each file's `vendor` flag and package place.
fn pick_group(
    files: &Vec<String>,
    packages: &Vec<String>,
    vendor: &Vec<bool>,
    ranks: &Vec<Option<usize>>,
    p: Option<usize>,
    out: &mut Vec<String>,
)
    requires
        vendor@.len() == files@.len(),
        ranks@.len() == files@.len(),
        forall|i: int| 0 <= i < files@.len() ==> vendor@[i] == is_vendor(#[trigger] files@[i]@),
        forall|i: int|
            0 <= i < files@.len() && vendor@[i] ==> opt_int(ranks@[i]) == rank(
                #[trigger] files@[i]@,
                strs(packages@),
            ),
    ensures
        strs(final(out)@) == strs(old(out)@) + group(strs(files@), strs(packages@), opt_int(p)),
{
    let ghost sf = strs(files@);
    let ghost sp = strs(packages@);
    let ghost start = strs(out@);
    for i in 0..files.len()
        invariant
            sf == strs(files@),
            sp == strs(packages@),
            vendor@.len() == files@.len(),
            ranks@.len() == files@.len(),
            forall|i: int| 0 <= i < files@.len() ==> vendor@[i] == is_vendor(#[trigger] files@[i]@),
            forall|i: int|
                0 <= i < files@.len() && vendor@[i] ==> opt_int(ranks@[i]) == rank(
                    #[trigger] files@[i]@,
                    sp,
                ),
            strs(out@) == start + group(sf.take(i as int), sp, opt_int(p)),
    {
        assert(sf.take(i + 1).drop_last() =~= sf.take(i as int));
        assert(sf.take(i + 1).last() == files@[i as int]@);
        let same_rank = match (ranks[i], p) {
            (Some(a), Some(b)) => a == b,
            (None, None) => true,
            _ => false,
        };
        let ghost before = strs(out@);
        if vendor[i] && same_rank {
            out.push(files[i].clone());
            assert(strs(out@) =~= before.push(files@[i as int]@));
        }
        proof {
            lemma_filter_step(sf, i as int, in_group(sp, opt_int(p)));
        }
        assert(strs(out@) =~= start + group(sf.take(i + 1), sp, opt_int(p)));
    }
    assert(sf.take(files.len() as int) =~= sf);
}

/// Appends the project's own (not vendored) files.
fn pick_own(files: &Vec<String>, vendor: &Vec<bool>, out: &mut Vec<String>)
    requires
        vendor@.len() == files@.len(),
        forall|i: int| 0 <= i < files@.len() ==> vendor@[i] == is_vendor(#[trigger] files@[i]@),
    ensures
        strs(final(out)@) == strs(old(out)@) + strs(files@).filter(is_own()),
{
    let ghost sf = strs(files@);
    let ghost start = strs(out@);
    for i in 0..files.len()
        invariant
            sf == strs(files@),
            vendor@.len() == files@.len(),
            forall|i: int| 0 <= i < files@.len() ==> vendor@[i] == is_vendor(#[trigger] files@[i]@),
            strs(out@) == start + sf.take(i as int).filter(is_own()),
    {
        assert(sf.take(i + 1).drop_last() =~= sf.take(i as int));
        assert(sf.take(i + 1).last() == files@[i as int]@);
        let ghost before = strs(out@);
        if !vendor[i] {
            out.push(files[i].clone());
            assert(strs(out@) =~= before.push(files@[i as int]@));
        }
        proof {
            lemma_filter_step(sf, i as int, is_own());
        }
        assert(strs(out@) =~= start + sf.take(i + 1).filter(is_own()));
    }
    assert(sf.take(files.len() as int) =~= sf);
}

/// The files of a project in the order in which they make up the program.
pub fn order_sources(files: &Vec<String>, packages: &Vec<String>) -> (r: Vec<String>)
    ensures
        strs(r@) == source_order(strs(files@), strs(packages@)),
{
    let mut vendor: Vec<bool> = Vec::new();
    let mut ranks: Vec<Option<usize>> = Vec::new();
    for i in 0..files.len()
        invariant
            vendor@.len() == i,
            ranks@.len() == i,
            forall|j: int| 0 <= j < i ==> vendor@[j] == is_vendor(#[trigger] files@[j]@),
            forall|j: int|
                0 <= j < i && vendor@[j] ==> opt_int(ranks@[j]) == rank(
                    #[trigger] files@[j]@,
                    strs(packages@),
                ),
    {
        let v = is_vendor_path(&files[i]);
        let r = if v {
            let name = package_of_path(&files[i]);
            position_of(packages, &name)
        } else {
            None
        };
        vendor.push(v);
        ranks.push(r);
    }
    let mut out: Vec<String> = Vec::new();
    assert(strs(out@) =~= groups(strs(files@), strs(packages@), 0));
    for p in 0..packages.len()
        invariant
            vendor@.len() == files@.len(),
            ranks@.len() == files@.len(),
            forall|j: int| 0 <= j < files@.len() ==> vendor@[j] == is_vendor(#[trigger] files@[j]@),
            forall|j: int|
                0 <= j < files@.len() && vendor@[j] ==> opt_int(ranks@[j]) == rank(
                    #[trigger] files@[j]@,
                    strs(packages@),
                ),
            strs(out@) == groups(strs(files@), strs(packages@), p as int),
    {
        pick_group(files, packages, &vendor, &ranks, Some(p), &mut out);
    }
    pick_group(files, packages, &vendor, &ranks, None, &mut out);
    pick_own(files, &vendor, &mut out);
    out
}

/// The text of a program made of several files: each file's text after a
/// line break, in order.
pub open spec fn joined(parts: Seq<Seq<char>>) -> Seq<char>
    decreases parts.len(),
{
    if parts.len() == 0 {
        seq![]
    } else {
        joined(parts.drop_last()) + seq!['\n'] + parts.last()
    }
}

/// Joins the texts of a project's files into one program.
pub fn join_sources(parts: &Vec<String>) -> (r: String)
    ensures
        r@ == joined(strs(parts@)),
{
    let ghost sp = strs(parts@);
    let mut out: Vec<char> = Vec::new();
    for i in 0..parts.len()
        invariant
            sp == strs(parts@),
            out@ == joined(sp.take(i as int)),
    {
        assert(sp.take(i + 1).drop_last() =~= sp.take(i as int));
        let cs = chars_of(parts[i].as_str());
        let ghost before = out@;
        out.push('\n');
        for j in 0..cs.len()
            invariant
                out@ == before + seq!['\n'] + cs@.take(j as int),
        {
            out.push(cs[j]);
            assert(out@ =~= before + seq!['\n'] + cs@.take(j + 1));
        }
        assert(cs@.take(cs.len() as int) =~= cs@);
        assert(out@ =~= joined(sp.take(i + 1)));
    }
    assert(sp.take(parts.len() as int) =~= sp);
    string_from_vec(out)
}

} // verus!
