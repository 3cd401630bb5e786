use crate::decimal::{
    is_digit, lemma_zero_padded_round_trip, parse_u32, parsed_u32, push_zero_padded, read_number,
    read_u32, zero_padded,
};
use crate::error::{VersionError, VersionErrorView};
use crate::manifest::{base_version, base_version_of, is_version_of};
use crate::matcher::{find_captures, group, group_text, search};
use crate::lines::{
    concatenate, concatenated, is_piece, lemma_part_occurs, lemma_pieces_are_pieces,
    lemma_pieces_make_the_text, lemma_pieces_of_concatenated, line_body, line_end, line_end_len,
    no_line_feed, pieces_of, split_pieces,
};
use crate::text::{
    append_chars, append_str, contains_chars, has_infix, occurs_at, rows, to_chars, to_text,
};
use vstd::prelude::*;

verus! {

/// The line of the stamp file that declares the version, with the five
/// digits of the build number as its one capture group.
pub const STAMP_PATTERN: &'static str =
    "    public const string version = \"\\d+-\\d+-\\d+-(\\d{5})\";";

/// A version: the dashed base version as the first capture group, the five
/// digits of the build number as the second.
pub const VERSION_PATTERN: &'static str = "(\\d+-\\d+-\\d+)-(\\d{5})";

/// What marks the line of the stamp file that is rewritten.
pub const STAMP_MARKER: &'static str = "public const string version =";

/// What a version string says: the dashed base version, by which versions
/// are compared for age as strings, and the build number.
#[derive(Debug, Clone, PartialEq, Eq)]
pub struct VersionInfo {
    pub build_number: u32,
    pub date_string: String,
}

/// A version's parts as plain values.
pub struct VersionInfoView {
    pub build_number: u32,
    pub date_string: Seq<char>,
}

impl View for VersionInfo {
    type V = VersionInfoView;

    open spec fn view(&self) -> VersionInfoView {
        VersionInfoView { build_number: self.build_number, date_string: self.date_string@ }
    }
}

/// The outcome of reading a version, as plain values.
pub open spec fn info_view(r: Result<VersionInfo, VersionError>) -> Result<
    VersionInfoView,
    VersionErrorView,
> {
    match r {
        Ok(info) => Ok(info@),
        Err(e) => Err(e@),
    }
}

/// The outcome of reading a build number, as plain values.
pub open spec fn number_view(r: Result<u32, VersionError>) -> Result<u32, VersionErrorView> {
    match r {
        Ok(n) => Ok(n),
        Err(e) => Err(e@),
    }
}

/// A text, or none, as plain values.
pub open spec fn text_view(text: Option<&str>) -> Option<Seq<char>> {
    match text {
        Some(t) => Some(t@),
        None => None,
    }
}

/// A base version with a dash in place of each dot.
pub open spec fn dashed(base: Seq<char>) -> Seq<char> {
    base.map_values(
        |c: char|
            if c == '.' {
                '-'
            } else {
                c
            },
    )
}

/// The canonical version string: the dashed base version, a dash, and the
/// build number in at least five digits.
pub open spec fn version_text(base: Seq<char>, build: nat) -> Seq<char> {
    dashed(base) + seq!['-'] + zero_padded(build, 5)
}

/// Formats the canonical version string.
pub fn format_version(base: &str, build: u64) -> (r: String)
    ensures
        r@ == version_text(base@, build as nat),
{
    let b = to_chars(base);
    let mut out: Vec<char> = Vec::new();
    let mut i: usize = 0;
    while i < b.len()
        invariant
            i <= b.len(),
            out@ == dashed(b@.take(i as int)),
        decreases b.len() - i,
    {
        let c = b[i];
        if c == '.' {
            out.push('-');
        } else {
            out.push(c);
        }
        assert(dashed(b@.take(i + 1)) =~= dashed(b@.take(i as int)).push(
            if c == '.' {
                '-'
            } else {
                c
            },
        ));
        i += 1;
    }
    assert(b@.take(b.len() as int) == b@);
    out.push('-');
    push_zero_padded(&mut out, build, 5);
    to_text(&out)
}

/// For a semantic base version `major.minor.patch` the version string is
/// `major-minor-patch-` and then the build number in at least five digits.
pub proof fn lemma_version_text_shape(
    base: Seq<char>,
    major: Seq<char>,
    minor: Seq<char>,
    patch: Seq<char>,
    build: nat,
)
    requires
        is_version_of(base, major, minor, patch),
    ensures
        version_text(base, build) == major + seq!['-'] + minor + seq!['-'] + patch + seq!['-']
            + zero_padded(build, 5),
{
    let want = major + seq!['-'] + minor + seq!['-'] + patch;
    assert(dashed(base).len() == want.len());
    assert forall|i: int| 0 <= i < want.len() implies dashed(base)[i] == want[i] by {
        let a = major.len() as int;
        let b = a + 1 + minor.len();
        if i < a {
            assert(base[i] == major[i]);
            assert(is_digit(major[i]));
        } else if i == a {
        } else if i < b {
            assert(base[i] == minor[i - a - 1]);
            assert(is_digit(minor[i - a - 1]));
        } else if i == b {
        } else {
            assert(base[i] == patch[i - b - 1]);
            assert(is_digit(patch[i - b - 1]));
        }
    }
    assert(dashed(base) =~= want);
}

/// The build number that a match of the stamp pattern gives: the number that
/// its first group spells, and 0 where there is no match, no such group, or
/// no number in it.
pub open spec fn build_number_in(found: Option<Seq<Option<Seq<char>>>>) -> u32 {
    match found {
        Some(groups) => match group_text(groups, 1) {
            Some(digits) => match parsed_u32(digits) {
                Some(n) => n,
                None => 0,
            },
            None => 0,
        },
        None => 0,
    }
}

/// Reads the build number out of a match of the stamp pattern.
pub fn build_number_from_captures(found: &Option<Vec<Option<String>>>) -> (r: u32)
    ensures
        r == build_number_in(found.deep_view()),
{
    match found {
        Some(groups) => match group(groups, 1) {
            Some(digits) => {
                let d = to_chars(digits.as_str());
                match parse_u32(&d) {
                    Some(n) => n,
                    None => 0,
                }
            },
            None => 0,
        },
        None => 0,
    }
}

/// The build number that a stamp file holds: 0 for no file, else what the
/// stamp pattern finds in it. An error only where the pattern is refused.
pub open spec fn stamped_build_number(stamp: Option<Seq<char>>) -> Result<
    u32,
    VersionErrorView,
> {
    match stamp {
        None => Ok(0),
        Some(content) => match search(STAMP_PATTERN@, content) {
            Ok(found) => Ok(build_number_in(found)),
            Err(e) => Err(e),
        },
    }
}

/// Reads the build number of the last stamped version: 0 where there is no
/// stamp file, no version line in it, or no number in that line.
pub fn extract_build_number(stamp: Option<&str>) -> (r: Result<u32, VersionError>)
    ensures
        number_view(r) == stamped_build_number(text_view(stamp)),
{
    match stamp {
        None => Ok(0),
        Some(content) => match find_captures(STAMP_PATTERN, content) {
            Ok(found) => Ok(build_number_from_captures(&found)),
            Err(e) => Err(e),
        },
    }
}

/// The line that declares `version` in the stamp file.
pub open spec fn stamp_line(version: Seq<char>) -> Seq<char> {
    "    public const string version = \""@ + version + "\";"@
}

/// A piece of the stamp file after the rewrite: where the line holds the
/// marker, the line that declares the new version, with the piece's own line
/// end; any other piece as it was.
pub open spec fn restamped_piece(piece: Seq<char>, version: Seq<char>) -> Seq<char> {
    if has_infix(line_body(piece), STAMP_MARKER@) {
        stamp_line(version) + line_end(piece)
    } else {
        piece
    }
}

/// The stamp file after the rewrite: its pieces in order, each restamped.
/// Every line end stays as it was, the last one too.
pub open spec fn restamped(content: Seq<char>, version: Seq<char>) -> Seq<char> {
    concatenated(pieces_of(content).map_values(|piece: Seq<char>| restamped_piece(piece, version)))
}

/// The first `count` characters.
fn head_of(s: &Vec<char>, count: usize) -> (r: Vec<char>)
    requires
        count <= s.len(),
    ensures
        r@ == s@.take(count as int),
{
    let mut out: Vec<char> = Vec::new();
    let mut i: usize = 0;
    while i < count
        invariant
            i <= count <= s.len(),
            out@ == s@.take(i as int),
        decreases count - i,
    {
        out.push(s[i]);
        assert(s@.take(i + 1) =~= s@.take(i as int).push(s@[i as int]));
        i += 1;
    }
    out
}

/// Rewrites the content of the stamp file for a new version.
pub fn update_core_cs_version(content: &str, version_string: &str) -> (r: String)
    ensures
        r@ == restamped(content@, version_string@),
{
    let text = to_chars(content);
    let marker = to_chars(STAMP_MARKER);
    let mut declared: Vec<char> = Vec::new();
    append_str(&mut declared, "    public const string version = \"");
    append_str(&mut declared, version_string);
    append_str(&mut declared, "\";");
    assert(declared@ == stamp_line(version_string@));
    let pieces = split_pieces(&text);
    let mut updated: Vec<Vec<char>> = Vec::new();
    let mut i: usize = 0;
    while i < pieces.len()
        invariant
            i <= pieces.len(),
            marker@ == STAMP_MARKER@,
            declared@ == stamp_line(version_string@),
            rows(updated@) == rows(pieces@).take(i as int).map_values(
                |piece: Seq<char>| restamped_piece(piece, version_string@),
            ),
        decreases pieces.len() - i,
    {
        let ghost before = rows(updated@);
        let piece = &pieces[i];
        let end: usize = line_end_len(piece);
        let body = head_of(piece, piece.len() - end);
        let mut line: Vec<char> = Vec::new();
        if contains_chars(&body, &marker) {
            append_chars(&mut line, &declared);
            let mut k: usize = piece.len() - end;
            while k < piece.len()
                invariant
                    piece.len() - end <= k <= piece.len(),
                    end == line_end(piece@).len(),
                    line@ == declared@ + piece@.subrange(piece.len() - end, k as int),
                decreases piece.len() - k,
            {
                line.push(piece[k]);
                assert(piece@.subrange(piece.len() - end, k + 1) =~= piece@.subrange(
                    piece.len() - end,
                    k as int,
                ).push(piece@[k as int]));
                k += 1;
            }
            assert(piece@.subrange(piece.len() - end, piece.len() as int) =~= line_end(piece@));
        } else {
            append_chars(&mut line, piece);
        }
        assert(line@ == restamped_piece(pieces@[i as int]@, version_string@));
        updated.push(line);
        assert(rows(updated@) =~= before.push(line@));
        assert(rows(pieces@).take(i + 1) =~= rows(pieces@).take(i as int).push(
            pieces@[i as int]@,
        ));
        assert(rows(updated@) =~= rows(pieces@).take(i + 1).map_values(
            |piece: Seq<char>| restamped_piece(piece, version_string@),
        ));
        i += 1;
    }
    assert(rows(pieces@).take(pieces.len() as int) == rows(pieces@));
    let out = concatenate(&updated);
    to_text(&out)
}

/// The line that declares a version holds the marker and ends with a
/// semicolon; it holds no line feed unless the version does.
pub proof fn lemma_stamp_line(version: Seq<char>)
    ensures
        has_infix(stamp_line(version), STAMP_MARKER@),
        stamp_line(version).len() >= 2,
        stamp_line(version).last() == ';',
        no_line_feed(version) ==> no_line_feed(stamp_line(version)),
{
    reveal_strlit("    public const string version = \"");
    reveal_strlit("\";");
    reveal_strlit("public const string version =");
    let line = stamp_line(version);
    let head = "    public const string version = \""@;
    let marker = STAMP_MARKER@;
    assert(line.subrange(4, 4 + marker.len() as int) =~= marker) by {
        assert forall|j: int| 0 <= j < marker.len() implies line.subrange(4, 4 + marker.len() as int)[j]
            == marker[j] by {
            assert(line[4 + j] == head[4 + j]);
        }
    }
    assert(occurs_at(line, marker, 4));
    if no_line_feed(version) {
        assert forall|j: int| 0 <= j < line.len() implies line[j] != '\n' by {
            if j < head.len() {
                assert(line[j] == head[j]);
            } else if j < head.len() + version.len() {
                assert(line[j] == version[j - head.len()]);
            } else {
                assert(line[j] == "\";"@[j - head.len() - version.len()]);
            }
        }
    }
}

/// A restamped piece ends as the piece did, and its line is the line that
/// declares the version where the piece's line held the marker, else the
/// piece's own line.
pub proof fn lemma_restamped_piece_keeps_line_end(piece: Seq<char>, version: Seq<char>)
    ensures
        line_end(restamped_piece(piece, version)) == line_end(piece),
        line_body(restamped_piece(piece, version)) == if has_infix(
            line_body(piece),
            STAMP_MARKER@,
        ) {
            stamp_line(version)
        } else {
            line_body(piece)
        },
{
    lemma_stamp_line(version);
    if has_infix(line_body(piece), STAMP_MARKER@) {
        let line = stamp_line(version);
        let made = line + line_end(piece);
        assert(made[line.len() - 1] == ';');
        assert(line_end(made) =~= line_end(piece));
        assert(line_body(made) =~= line);
    }
}

/// The rewrite keeps every piece in its place with its own line end: the
/// pieces of the rewritten stamp are the pieces of the old one, each
/// restamped.
pub proof fn lemma_restamp_keeps_pieces(content: Seq<char>, version: Seq<char>)
    requires
        no_line_feed(version),
    ensures
        pieces_of(restamped(content, version)) == pieces_of(content).map_values(
            |piece: Seq<char>| restamped_piece(piece, version),
        ),
{
    let old_pieces = pieces_of(content);
    let new_pieces = old_pieces.map_values(|piece: Seq<char>| restamped_piece(piece, version));
    lemma_pieces_are_pieces(content);
    lemma_stamp_line(version);
    assert forall|i: int| 0 <= i < new_pieces.len() implies is_piece(#[trigger] new_pieces[i]) && (i
        < new_pieces.len() - 1 ==> new_pieces[i].last() == '\n') by {
        let piece = old_pieces[i];
        assert(is_piece(piece));
        assert(new_pieces[i] == restamped_piece(piece, version));
        if has_infix(line_body(piece), STAMP_MARKER@) {
            let line = stamp_line(version);
            let made = line + line_end(piece);
            assert forall|j: int| 0 <= j < made.len() - 1 implies made[j] != '\n' by {
                if j < line.len() {
                    assert(made[j] == line[j]);
                }
            }
            if i < new_pieces.len() - 1 {
                assert(piece.last() == '\n');
            }
        }
    }
    lemma_pieces_of_concatenated(new_pieces);
}

/// A stamp file that holds the marker nowhere comes back as it was.
pub proof fn lemma_unmarked_stamp_stays(content: Seq<char>, version: Seq<char>)
    requires
        !has_infix(content, STAMP_MARKER@),
    ensures
        restamped(content, version) == content,
{
    let old_pieces = pieces_of(content);
    let new_pieces = old_pieces.map_values(|piece: Seq<char>| restamped_piece(piece, version));
    lemma_pieces_make_the_text(content);
    assert forall|i: int| 0 <= i < old_pieces.len() implies new_pieces[i] == old_pieces[i] by {
        let piece = old_pieces[i];
        let body = line_body(piece);
        if has_infix(body, STAMP_MARKER@) {
            let k = choose|k: int| occurs_at(body, STAMP_MARKER@, k);
            let at = lemma_part_occurs(old_pieces, i);
            let m = STAMP_MARKER@.len() as int;
            let found = content.subrange(at + k, at + k + m);
            assert forall|j: int| 0 <= j < m implies #[trigger] found[j] == body.subrange(
                k,
                k + m,
            )[j] by {
                assert(content.subrange(at, at + piece.len())[k + j] == piece[k + j]);
            }
            assert(found =~= body.subrange(k, k + m));
            assert(occurs_at(content, STAMP_MARKER@, at + k));
        }
    }
    assert(new_pieces =~= old_pieces);
}

/// A second rewrite for the same version changes nothing.
pub proof fn lemma_restamp_twice(content: Seq<char>, version: Seq<char>)
    requires
        no_line_feed(version),
    ensures
        restamped(restamped(content, version), version) == restamped(content, version),
{
    let old_pieces = pieces_of(content);
    let new_pieces = old_pieces.map_values(|piece: Seq<char>| restamped_piece(piece, version));
    let again = new_pieces.map_values(|piece: Seq<char>| restamped_piece(piece, version));
    lemma_restamp_keeps_pieces(content, version);
    assert forall|i: int| 0 <= i < new_pieces.len() implies again[i] == new_pieces[i] by {
        lemma_restamped_piece_keeps_line_end(old_pieces[i], version);
    }
    assert(again =~= new_pieces);
}

/// A freshly generated version: its string, and the new content of the
/// stamp file where there is a stamp file to rewrite.
#[derive(Debug, Clone, PartialEq, Eq)]
pub struct GeneratedVersion {
    pub version: String,
    pub stamp: Option<String>,
}

/// A generated version as plain values.
pub struct GeneratedVersionView {
    pub version: Seq<char>,
    pub stamp: Option<Seq<char>>,
}

impl View for GeneratedVersion {
    type V = GeneratedVersionView;

    open spec fn view(&self) -> GeneratedVersionView {
        GeneratedVersionView {
            version: self.version@,
            stamp: match self.stamp {
                Some(s) => Some(s@),
                None => None,
            },
        }
    }
}

/// The outcome of generating a version, as plain values.
pub open spec fn generated_view(r: Result<GeneratedVersion, VersionError>) -> Result<
    GeneratedVersionView,
    VersionErrorView,
> {
    match r {
        Ok(g) => Ok(g@),
        Err(e) => Err(e@),
    }
}

/// The next version for a manifest and a stamp file, either of which may be
/// absent: the manifest's base version with the stamped build number plus
/// one, and the stamp file rewritten for it if there is one.
pub open spec fn next_version(manifest: Option<Seq<char>>, stamp: Option<Seq<char>>) -> Result<
    GeneratedVersionView,
    VersionErrorView,
> {
    match stamped_build_number(stamp) {
        Ok(previous) => {
            let version = version_text(base_version_of(manifest), (previous + 1) as nat);
            Ok(
                GeneratedVersionView {
                    version,
                    stamp: match stamp {
                        Some(content) => Some(restamped(content, version)),
                        None => None,
                    },
                },
            )
        },
        Err(e) => Err(e),
    }
}

/// Generates the next version from the text of the manifest and the content
/// of the stamp file, `None` for a file that is absent. The build mode takes
/// no part in it.
pub fn generate_version_string(
    _build_mode: &str,
    manifest: Option<&str>,
    stamp: Option<&str>,
) -> (r: Result<GeneratedVersion, VersionError>)
    ensures
        generated_view(r) == next_version(text_view(manifest), text_view(stamp)),
        stamp is None ==> generated_view(r) == Ok::<GeneratedVersionView, VersionErrorView>(
            GeneratedVersionView {
                version: version_text(base_version_of(text_view(manifest)), 1),
                stamp: None,
            },
        ),
{
    let base = base_version(manifest);
    let previous = match extract_build_number(stamp) {
        Ok(n) => n,
        Err(e) => {
            return Err(e);
        },
    };
    let next: u64 = previous as u64 + 1;
    let version = format_version(base.as_str(), next);
    let rewritten = match stamp {
        Some(content) => Some(update_core_cs_version(content, version.as_str())),
        None => None,
    };
    Ok(GeneratedVersion { version, stamp: rewritten })
}

/// The version that a match of a version pattern in `text` gives: the first
/// group is the dashed base version, the second spells the build number.
/// Without both groups the text is refused.
pub open spec fn version_in(groups: Seq<Option<Seq<char>>>, text: Seq<char>) -> Result<
    VersionInfoView,
    VersionErrorView,
> {
    match (group_text(groups, 1), group_text(groups, 2)) {
        (Some(date), Some(digits)) => match read_u32(digits) {
            Ok(n) => Ok(VersionInfoView { build_number: n, date_string: date }),
            Err(e) => Err(VersionErrorView::InvalidBuildNumber(e)),
        },
        _ => Err(VersionErrorView::InvalidFormat(text)),
    }
}

/// Reads a version out of the capture groups of a match in `text`.
pub fn version_from_captures(groups: &Vec<Option<String>>, text: &str) -> (r: Result<
    VersionInfo,
    VersionError,
>)
    ensures
        info_view(r) == version_in(groups.deep_view(), text@),
{
    match (group(groups, 1), group(groups, 2)) {
        (Some(date), Some(digits)) => {
            let d = to_chars(digits.as_str());
            match read_number(&d) {
                Ok(n) => Ok(VersionInfo { build_number: n, date_string: date.clone() }),
                Err(e) => Err(VersionError::InvalidBuildNumber(e)),
            }
        },
        _ => Err(VersionError::InvalidFormat(text.to_owned())),
    }
}

/// What a version string says, or why it says nothing: a text in which the
/// version pattern finds nothing is refused, and the error holds the text.
pub open spec fn parsed_version(version: Seq<char>) -> Result<VersionInfoView, VersionErrorView> {
    match search(VERSION_PATTERN@, version) {
        Ok(Some(groups)) => version_in(groups, version),
        Ok(None) => Err(VersionErrorView::InvalidFormat(version)),
        Err(e) => Err(e),
    }
}

/// Reads the dashed base version and the build number out of a version
/// string.
pub fn parse_version_string(version: &str) -> (r: Result<VersionInfo, VersionError>)
    ensures
        info_view(r) == parsed_version(version@),
{
    match find_captures(VERSION_PATTERN, version) {
        Ok(Some(groups)) => version_from_captures(&groups, version),
        Ok(None) => Err(VersionError::InvalidFormat(version.to_owned())),
        Err(e) => Err(e),
    }
}

/// The version that a stamp file holds: what its version line says. Without
/// a stamp file, or without such a line in it, there is no current version.
pub open spec fn current_version(stamp: Option<Seq<char>>) -> Result<
    VersionInfoView,
    VersionErrorView,
> {
    match stamp {
        None => Err(VersionErrorView::MissingStamp),
        Some(content) => match search(STAMP_PATTERN@, content) {
            Ok(Some(groups)) => match group_text(groups, 0) {
                Some(line) => parsed_version(line),
                None => Err(VersionErrorView::Unstamped),
            },
            Ok(None) => Err(VersionErrorView::Unstamped),
            Err(e) => Err(e),
        },
    }
}

/// Reads the current version out of the stamp file's content, without
/// changing anything.
pub fn get_current_version_info(stamp: Option<&str>) -> (r: Result<VersionInfo, VersionError>)
    ensures
        info_view(r) == current_version(text_view(stamp)),
{
    match stamp {
        None => Err(VersionError::MissingStamp),
        Some(content) => match find_captures(STAMP_PATTERN, content) {
            Ok(Some(groups)) => match group(&groups, 0) {
                Some(line) => parse_version_string(line.as_str()),
                None => Err(VersionError::Unstamped),
            },
            Ok(None) => Err(VersionError::Unstamped),
            Err(e) => Err(e),
        },
    }
}

/// Where a match gives the dashed base version and the build number in five
/// digits or more, as the version string spells it, reading the match gives
/// both back.
pub proof fn lemma_version_round_trip(
    whole: Seq<char>,
    date: Seq<char>,
    build: u32,
    text: Seq<char>,
)
    ensures
        version_in(seq![Some(whole), Some(date), Some(zero_padded(build as nat, 5))], text) == Ok::<
            VersionInfoView,
            VersionErrorView,
        >(VersionInfoView { build_number: build, date_string: date }),
{
    lemma_zero_padded_round_trip(build, 5);
}

/// Where a match of the stamp pattern gives a build number in five digits
/// or more, as the stamp line spells it, reading the match gives the number
/// back.
pub proof fn lemma_build_number_round_trip(whole: Seq<char>, build: u32)
    ensures
        build_number_in(Some(seq![Some(whole), Some(zero_padded(build as nat, 5))])) == build,
{
    lemma_zero_padded_round_trip(build, 5);
}

/// Formatting and reading agree: where the version pattern finds in the
/// version string of `major.minor.patch` and a build number the dashed base
/// version and the digits that were written, reading the string gives the
/// build number back, and the dashed base version with it.
pub proof fn lemma_format_then_read(
    base: Seq<char>,
    major: Seq<char>,
    minor: Seq<char>,
    patch: Seq<char>,
    build: u32,
    whole: Seq<char>,
)
    requires
        is_version_of(base, major, minor, patch),
        search(VERSION_PATTERN@, version_text(base, build as nat)) == Ok::<
            Option<Seq<Option<Seq<char>>>>,
            VersionErrorView,
        >(
            Some(
                seq![
                    Some(whole),
                    Some(major + seq!['-'] + minor + seq!['-'] + patch),
                    Some(zero_padded(build as nat, 5)),
                ],
            ),
        ),
    ensures
        version_text(base, build as nat) == major + seq!['-'] + minor + seq!['-'] + patch + seq![
            '-',
        ] + zero_padded(build as nat, 5),
        parsed_version(version_text(base, build as nat)) == Ok::<VersionInfoView, VersionErrorView>(
            VersionInfoView {
                build_number: build,
                date_string: major + seq!['-'] + minor + seq!['-'] + patch,
            },
        ),
{
    lemma_version_round_trip(
        whole,
        major + seq!['-'] + minor + seq!['-'] + patch,
        build,
        version_text(base, build as nat),
    );
}

/// Generation counts up: from a stamp that holds build number `n` comes
/// the version with `n + 1`; and where the stamp pattern finds in the
/// rewritten stamp the digits that were written, the next generation gives
/// the version with `n + 2`.
pub proof fn lemma_generation_counts_up(
    manifest: Option<Seq<char>>,
    stamp: Seq<char>,
    n: u32,
    whole: Seq<char>,
)
    requires
        n < u32::MAX,
        stamped_build_number(Some(stamp)) == Ok::<u32, VersionErrorView>(n),
        search(
            STAMP_PATTERN@,
            restamped(stamp, version_text(base_version_of(manifest), (n + 1) as nat)),
        ) == Ok::<Option<Seq<Option<Seq<char>>>>, VersionErrorView>(
            Some(seq![Some(whole), Some(zero_padded((n + 1) as nat, 5))]),
        ),
    ensures
        next_version(manifest, Some(stamp)) matches Ok(first) && first.version == version_text(
            base_version_of(manifest),
            (n + 1) as nat,
        ) && first.stamp is Some && (next_version(manifest, first.stamp) matches Ok(second)
            && second.version == version_text(base_version_of(manifest), (n + 2) as nat)),
{
    lemma_build_number_round_trip(whole, (n + 1) as u32);
}

} // verus!
