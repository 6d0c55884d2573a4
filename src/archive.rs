//! Options of the release packaging: the archive format and the
//! comma-separated lists given on its command line.
use crate::text::str_eq;
use vstd::prelude::*;
use vstd::string::*;

verus! {

/// Format of a release archive.
#[derive(Debug, Clone, Copy, PartialEq, Eq, Structural)]
pub enum ArchiveFormat {
    TarGz,
    Zip,
}

/// The archive format used when none is given: zip on Windows, a gzipped tar
/// elsewhere.
pub fn default_format(windows: bool) -> (r: ArchiveFormat)
    ensures
        r == (if windows { ArchiveFormat::Zip } else { ArchiveFormat::TarGz }),
{
    if windows {
        ArchiveFormat::Zip
    } else {
        ArchiveFormat::TarGz
    }
}

impl ArchiveFormat {
    /// Parse `tgz` or `zip`; any other name gives a message that lists them.
    pub fn parse(s: &str) -> (r: Result<ArchiveFormat, String>)
        ensures
            s@ == "tgz"@ ==> r == Ok::<ArchiveFormat, String>(ArchiveFormat::TarGz),
            s@ == "zip"@ ==> r == Ok::<ArchiveFormat, String>(ArchiveFormat::Zip),
            s@ != "tgz"@ && s@ != "zip"@ ==> r is Err && r->Err_0@ == "'"@ + s@
                + "' is not one of the supported archive formats (tar.gz, zip)"@,
    {
        proof {
            reveal_strlit("tgz");
            reveal_strlit("zip");
            assert("tgz"@[0] != "zip"@[0]);
        }
        if str_eq(s, "tgz") {
            Ok(ArchiveFormat::TarGz)
        } else if str_eq(s, "zip") {
            Ok(ArchiveFormat::Zip)
        } else {
            let mut message = "'".to_owned();
            message.append(s);
            message.append("' is not one of the supported archive formats (tar.gz, zip)");
            Err(message)
        }
    }

    /// The file extension of the format.
    pub fn extension(&self) -> (r: &'static str)
        ensures
            *self == ArchiveFormat::TarGz ==> r@ == "tar.gz"@,
            *self == ArchiveFormat::Zip ==> r@ == "zip"@,
    {
        match self {
            ArchiveFormat::TarGz => "tar.gz",
            ArchiveFormat::Zip => "zip",
        }
    }
}

/// The pieces of `s` between commas, in order; text without a comma is one
/// piece, and the empty text one empty piece.
pub open spec fn split_commas(s: Seq<char>) -> Seq<Seq<char>>
    decreases s.len(),
{
    if s.len() == 0 {
        seq![Seq::<char>::empty()]
    } else {
        let rest = split_commas(s.drop_last());
        if s.last() == ',' {
            rest.push(Seq::<char>::empty())
        } else {
            rest.update(rest.len() - 1, rest.last().push(s.last()))
        }
    }
}

proof fn lemma_split_commas_nonempty(s: Seq<char>)
    ensures
        split_commas(s).len() >= 1,
    decreases s.len(),
{
    if s.len() > 0 {
        lemma_split_commas_nonempty(s.drop_last());
    }
}

/// The pieces joined with a comma between each two.
pub open spec fn join_commas(pieces: Seq<Seq<char>>) -> Seq<char>
    decreases pieces.len(),
{
    if pieces.len() <= 1 {
        if pieces.len() == 1 {
            pieces[0]
        } else {
            Seq::<char>::empty()
        }
    } else {
        join_commas(pieces.drop_last()) + seq![','] + pieces.last()
    }
}

pub open spec fn has_no_comma(t: Seq<char>) -> bool {
    forall|i: int| 0 <= i < t.len() ==> t[i] != ','
}

proof fn lemma_split_append_plain(s: Seq<char>, t: Seq<char>)
    requires
        has_no_comma(t),
    ensures
        split_commas(s + t) == split_commas(s).update(
            split_commas(s).len() - 1,
            split_commas(s).last() + t,
        ),
        split_commas(s + t).len() == split_commas(s).len(),
    decreases t.len(),
{
    lemma_split_commas_nonempty(s);
    if t.len() == 0 {
        assert(s + t =~= s);
        assert(split_commas(s).last() + t =~= split_commas(s).last());
        assert(split_commas(s).update(split_commas(s).len() - 1, split_commas(s).last())
            =~= split_commas(s));
    } else {
        let u = t.drop_last();
        assert(has_no_comma(u)) by {
            assert forall|i: int| 0 <= i < u.len() implies u[i] != ',' by {
                assert(u[i] == t[i]);
            }
        }
        lemma_split_append_plain(s, u);
        assert((s + t).drop_last() =~= s + u);
        assert((s + t).last() == t.last());
        let prev = split_commas(s);
        let n = prev.len() - 1;
        let c = t.last();
        assert(c == t[t.len() - 1]);
        assert(c != ',');
        let rest = split_commas(s + u);
        assert(rest.len() == prev.len());
        assert(rest.last() == prev.last() + u);
        assert(split_commas(s + t) == rest.update(rest.len() - 1, rest.last().push(c)));
        assert((prev.last() + u).push(c) =~= prev.last() + t);
        assert(split_commas(s + t) =~= prev.update(n, prev.last() + t));
    }
}

/// Splitting pieces joined with commas gives the pieces back, where no
/// piece holds a comma itself.
pub proof fn lemma_split_join(pieces: Seq<Seq<char>>)
    requires
        pieces.len() >= 1,
        forall|k: int| 0 <= k < pieces.len() ==> has_no_comma(#[trigger] pieces[k]),
    ensures
        split_commas(join_commas(pieces)) == pieces,
    decreases pieces.len(),
{
    if pieces.len() == 1 {
        let e = Seq::<char>::empty();
        lemma_split_append_plain(e, pieces[0]);
        assert(e + pieces[0] =~= pieces[0]);
        assert(split_commas(e) =~= seq![e]);
        assert(e + pieces[0] =~= pieces[0]);
        assert(seq![e].update(0, e + pieces[0]) =~= pieces);
    } else {
        let rest = pieces.drop_last();
        assert forall|k: int| 0 <= k < rest.len() implies has_no_comma(#[trigger] rest[k]) by {
            assert(rest[k] == pieces[k]);
        }
        lemma_split_join(rest);
        let head = join_commas(rest) + seq![','];
        assert(head.drop_last() =~= join_commas(rest));
        assert(split_commas(head) == rest.push(Seq::<char>::empty()));
        lemma_split_append_plain(head, pieces.last());
        assert(head + pieces.last() =~= join_commas(pieces));
        assert(Seq::<char>::empty() + pieces.last() =~= pieces.last());
        assert(rest.push(Seq::<char>::empty()).update(rest.len() as int, pieces.last()) =~= pieces);
    }
}

pub open spec fn string_views(v: Seq<String>) -> Seq<Seq<char>> {
    v.map_values(|p: String| p@)
}

/// The comma-separated items of an optional option value: none where the
/// option is absent.
pub fn comma_separated(s: Option<String>) -> (r: Vec<String>)
    ensures
        s is None ==> r@.len() == 0,
        s is Some ==> string_views(r@) == split_commas(s->Some_0@),
{
    let s = match s {
        None => return Vec::new(),
        Some(s) => s,
    };
    let t = s.as_str();
    let n = t.unicode_len();
    let mut parts: Vec<String> = Vec::new();
    let mut start: usize = 0;
    let mut i: usize = 0;
    assert(t@.subrange(0, 0) =~= Seq::<char>::empty());
    assert(string_views(parts@).push(t@.subrange(0, 0)) =~= split_commas(t@.subrange(0, 0)));
    while i < n
        invariant
            n == t@.len(),
            t@ == s@,
            start <= i <= n,
            string_views(parts@).push(t@.subrange(start as int, i as int)) == split_commas(
                t@.subrange(0, i as int),
            ),
        decreases n - i,
    {
        let ghost prev = split_commas(t@.subrange(0, i as int));
        proof {
            lemma_split_commas_nonempty(t@.subrange(0, i as int));
        }
        assert(t@.subrange(0, i + 1).drop_last() =~= t@.subrange(0, i as int));
        if t.get_char(i) == ',' {
            let piece = t.substring_char(start, i).to_owned();
            parts.push(piece);
            assert(string_views(parts@) =~= prev);
            start = i + 1;
            i = i + 1;
            assert(t@.subrange(start as int, i as int) =~= Seq::<char>::empty());
            assert(string_views(parts@).push(t@.subrange(start as int, i as int)) =~= split_commas(
                t@.subrange(0, i as int),
            ));
        } else {
            assert(t@.subrange(start as int, i + 1) =~= t@.subrange(start as int, i as int).push(t@[i as int]));
            i = i + 1;
            assert(string_views(parts@).push(t@.subrange(start as int, i as int)) =~= split_commas(
                t@.subrange(0, i as int),
            ));
        }
    }
    let last = t.substring_char(start, n).to_owned();
    parts.push(last);
    assert(t@.subrange(0, n as int) =~= t@);
    assert(string_views(parts@) =~= split_commas(t@));
    parts
}

} // verus!
