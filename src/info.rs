//! The repository summary: assembled once from the probes' outputs, then
//! drawn beside the logo.

use crate::authors::{get_authors, ranks_authors, AuthorStat};
use crate::color::{
    apply_custom_colors, color_key, paint, paint_background, paint_bold, painted_form,
    with_overrides, Color,
};
use crate::error::Error;
use crate::fields::{
    author_lines, author_list_lines, language_lines, language_list_lines, line_view, InfoLine,
};
use crate::history::{
    get_creation_date, get_number_of_commits, parse_history,
    parse_lines, record_views, CommitRecord,
};
use crate::language::{art_file_of, colors_of, name_of, Language};
use crate::layout::{block_string, block_text, rows, spaces, zip_columns};
use crate::license::{license_summary, license_text};
use crate::probes::{
    count_changes, get_packed_size, get_pending_changes, or_unknown, packed_size_of, pending_text,
    shown_or_unknown, unknown, unknown_string, Change,
};
use crate::repo::{
    commit_info, commit_text, head_labels, project_name, project_name_of, refs_at_head, remote_url,
    remote_url_of, ConfigEntry, RefInfo,
};
use crate::plan::{plan_probes, Discovery};
use crate::stats::{
    bucket_languages, bucketed, lines_of, ranked, stable_ranked, total_lines, LanguageLines,
};
use crate::text::{decimal, decimal_string, line_views, strip_newlines, without_char};
use vstd::prelude::*;
use vstd::string::*;

verus! {

/// Which fields are hidden: a field whose flag is set is left out.
#[derive(Clone, Copy, Debug, PartialEq, Eq, Structural)]
pub struct InfoFieldOn {
    pub git_info: bool,
    pub project: bool,
    pub head: bool,
    pub version: bool,
    pub created: bool,
    pub languages: bool,
    pub authors: bool,
    pub last_change: bool,
    pub repo: bool,
    pub pending: bool,
    pub commits: bool,
    pub lines_of_code: bool,
    pub size: bool,
    pub license: bool,
}

/// The summary of a repository, with the choices that shape its display.
#[derive(Clone, Debug)]
pub struct Info {
    pub git_version: String,
    pub git_username: String,
    pub project_name: String,
    pub current_commit: String,
    pub version: String,
    pub creation_date: String,
    pub dominant_language: Language,
    pub languages: Vec<LanguageLines>,
    pub authors: Vec<AuthorStat>,
    pub last_change: String,
    pub repo: String,
    pub commits: String,
    pub pending: String,
    pub repo_size: String,
    pub number_of_lines: u64,
    pub license: String,
    pub custom_logo: Language,
    pub custom_colors: Vec<String>,
    pub disable_fields: InfoFieldOn,
    pub bold_enabled: bool,
    pub no_color_blocks: bool,
}

/// What the probes found, as the outside world reported it.
#[derive(Clone, Debug)]
pub struct Probes {
    /// Lines of code counted per language.
    pub language_counts: Vec<LanguageLines>,
    /// The configuration entries, `None` where they could not be read.
    pub config: Option<Vec<ConfigEntry>>,
    /// The current commit as a hex id, `None` where it could not be resolved.
    pub head: Option<String>,
    /// The references of the repository.
    pub refs: Vec<RefInfo>,
    /// The lines of the log query, `time<TAB>author`, newest first.
    pub history: Vec<String>,
    /// The output of the version query of the git client.
    pub git_version: String,
    /// The output of the user-name query.
    pub git_username: String,
    /// The output of the latest-tag query.
    pub version: String,
    /// The output of the last-change query.
    pub last_change: String,
    /// The lines of the status query.
    pub status: Vec<String>,
    /// The lines of the object-count query.
    pub count_objects: Vec<String>,
    /// The output of the tracked-file listing, `None` where it failed.
    pub file_listing: Option<String>,
    /// The classifier's verdict on each license candidate, `None` where the
    /// directory could not be read.
    pub license_ids: Option<Vec<String>>,
}

/// `lines` where `shown` holds, and nothing otherwise.
pub open spec fn when(shown: bool, lines: Seq<(Seq<char>, Seq<char>)>) -> Seq<(Seq<char>, Seq<char>)> {
    if shown {
        lines
    } else {
        Seq::empty()
    }
}

/// The dashes under the header.
pub open spec fn dashes(n: nat) -> Seq<char> {
    Seq::new(n, |i: int| '-')
}

/// The header: `user ~ version`, or the version alone where no user name is
/// configured, and a line of dashes as long.
pub open spec fn header_lines(info: Info) -> Seq<(Seq<char>, Seq<char>)> {
    let title = if info.git_username@.len() > 0 {
        info.git_username@ + seq![' ', '~', ' '] + info.git_version@
    } else {
        info.git_version@
    };
    seq![(title, Seq::empty()), (Seq::empty(), dashes(title.len()))]
}

/// The language lines: the bucketed list where several languages were found,
/// the one language otherwise.
pub open spec fn language_part(info: Info) -> Seq<(Seq<char>, Seq<char>)> {
    if info.languages@.len() > 1 {
        language_lines(bucketed(info.languages@), info.number_of_lines as nat)
    } else {
        seq![("Language: "@, name_of(info.dominant_language))]
    }
}

/// The header and the single-line fields up to the creation date.
pub open spec fn top_lines(info: Info) -> Seq<(Seq<char>, Seq<char>)> {
    let d = info.disable_fields;
    when(!d.git_info, header_lines(info)) + when(
        !d.project,
        seq![("Project: "@, info.project_name@)],
    ) + when(!d.head, seq![("HEAD: "@, info.current_commit@)]) + when(
        !d.pending && info.pending@.len() > 0,
        seq![("Pending: "@, info.pending@)],
    ) + when(!d.version, seq![("Version: "@, info.version@)]) + when(
        !d.created,
        seq![("Created: "@, info.creation_date@)],
    )
}

/// The language and author lists.
pub open spec fn list_lines(info: Info) -> Seq<(Seq<char>, Seq<char>)> {
    let d = info.disable_fields;
    when(!d.languages && info.languages@.len() > 0, language_part(info)) + when(
        !d.authors && info.authors@.len() > 0,
        author_lines(info.authors@),
    )
}

/// The single-line fields from the last change on.
pub open spec fn bottom_lines(info: Info) -> Seq<(Seq<char>, Seq<char>)> {
    let d = info.disable_fields;
    when(!d.last_change, seq![("Last change: "@, info.last_change@)]) + when(
        !d.repo,
        seq![("Repo: "@, info.repo@)],
    ) + when(!d.commits, seq![("Commits: "@, info.commits@)]) + when(
        !d.lines_of_code,
        seq![("Lines of code: "@, decimal(info.number_of_lines as nat))],
    ) + when(!d.size, seq![("Size: "@, info.repo_size@)]) + when(
        !d.license,
        seq![("License: "@, info.license@)],
    )
}

/// The lines of the info column, in order, each a label and its content.
pub open spec fn info_lines_of(info: Info) -> Seq<(Seq<char>, Seq<char>)> {
    top_lines(info) + list_lines(info) + bottom_lines(info)
}

/// How an info line is drawn: the content alone under an empty label, and
/// otherwise behind the painted label.
pub open spec fn drawn(line: (Seq<char>, Seq<char>), text: Seq<char>) -> bool {
    if line.0.len() == 0 {
        text == line.1
    } else {
        exists|p: Seq<char>| painted_form(line.0, p) && text == p + line.1
    }
}

/// `r` is the summary drawn beside `logo`, its info column being `texts`:
/// the rows of the two columns written out; the info column holds each info
/// line drawn, then, unless switched off, a blank line and the colour blocks.
pub open spec fn drawn_beside(
    info: Info,
    logo: Seq<String>,
    width: nat,
    texts: Seq<Seq<char>>,
    r: Seq<char>,
) -> bool {
    &&& r == block_text(rows(line_views(logo), width, texts))
    &&& texts.len() == info_lines_of(info).len() + if info.no_color_blocks {
        0nat
    } else {
        2nat
    }
    &&& forall|k: int|
        0 <= k < info_lines_of(info).len() ==> drawn(#[trigger] info_lines_of(info)[k], texts[k])
    &&& !info.no_color_blocks ==> texts[info_lines_of(info).len() as int] == Seq::<char>::empty()
}

/// The language whose logo is drawn: the chosen one, or the dominant one
/// where none was chosen.
pub open spec fn logo_language(info: Info) -> Language {
    if info.custom_logo == Language::Unknown {
        info.dominant_language
    } else {
        info.custom_logo
    }
}

/// The view of an info-line list.
pub open spec fn info_views(lines: Seq<InfoLine>) -> Seq<(Seq<char>, Seq<char>)> {
    lines.map_values(|l: InfoLine| line_view(l))
}

fn push_line(out: &mut Vec<InfoLine>, label: &str, content: &String)
    ensures
        info_views(final(out)@) == info_views(old(out)@).push((label@, content@)),
{
    out.push(InfoLine { label: String::from_str(label), content: content.clone() });
    assert(info_views(out@) =~= info_views(old(out)@).push((label@, content@)));
}

fn push_all(out: &mut Vec<InfoLine>, more: Vec<InfoLine>)
    ensures
        info_views(final(out)@) == info_views(old(out)@) + info_views(more@),
{
    let mut more = more;
    let ghost added = more@;
    out.append(&mut more);
    assert(info_views(out@) =~= info_views(old(out)@) + info_views(added));
}

/// An entry's lines are at most the total of its list.
proof fn lemma_entry_le_total(s: Seq<LanguageLines>, k: int)
    requires
        0 <= k < s.len(),
    ensures
        s[k].lines <= total_lines(s),
    decreases s.len(),
{
    if k < s.len() - 1 {
        lemma_entry_le_total(s.drop_last(), k);
    }
}

/// Every entry of the bucketed list has at most the total of the ranked list.
proof fn lemma_bucketed_le_total(s: Seq<LanguageLines>)
    requires
        total_lines(s) <= u64::MAX,
    ensures
        forall|k: int| 0 <= k < bucketed(s).len() ==> bucketed(s)[k].lines <= total_lines(s),
{
    assert forall|k: int| 0 <= k < bucketed(s).len() implies bucketed(s)[k].lines <= total_lines(s) by {
        if s.len() <= 6 || k < 6 {
            lemma_entry_le_total(s, k);
        } else {
            crate::stats::lemma_sum_concat(
                s.subrange(0, 6),
                s.subrange(6, s.len() as int),
                |e: LanguageLines| lines_of(e),
            );
            assert(s.subrange(0, 6) + s.subrange(6, s.len() as int) =~= s);
        }
    }
}

/// `info` is the summary that the probes' findings give.
pub open spec fn assembled(
    probes: Probes,
    logo: Language,
    colors: Vec<String>,
    disabled: InfoFieldOn,
    bold_flag: bool,
    color_blocks_flag: bool,
    author_nb: nat,
    info: Info,
) -> bool {
    let recs = parse_lines(line_views(probes.history@));
    let config = probes.config->0@;
    let head = probes.head->0@;
    &&& info.wf()
    &&& info.git_version@ == without_char(probes.git_version@, '\n')
    &&& info.git_username@ == without_char(probes.git_username@, '\n')
    &&& info.repo@ == remote_url_of(config)
    &&& info.project_name@ == project_name_of(remote_url_of(config))
    &&& info.current_commit@ == commit_text(head, head_labels(probes.refs@, head))
    &&& info.version@ == shown_or_unknown(probes.version@)
    &&& info.last_change@ == shown_or_unknown(probes.last_change@)
    &&& info.creation_date@ == (if recs.len() > 0 {
        recs.last().0
    } else {
        unknown()
    })
    &&& info.commits@ == decimal(recs.len())
    &&& exists|records: Seq<CommitRecord>|
        record_views(records) == recs && #[trigger] ranks_authors(records, author_nb, info.authors@)
    &&& info.pending@ == pending_text(
        count_changes(line_views(probes.status@), Change::Modified),
        count_changes(line_views(probes.status@), Change::Added),
        count_changes(line_views(probes.status@), Change::Deleted),
    )
    &&& info.repo_size@ == match probes.file_listing {
        Some(l) => packed_size_of(line_views(probes.count_objects@)) + seq![' ', '('] + decimal(
            crate::probes::char_count(l@, '\n'),
        ) + seq![' ', 'f', 'i', 'l', 'e', 's', ')'],
        None => packed_size_of(line_views(probes.count_objects@)),
    }
    &&& match probes.license_ids {
        Some(ids) => license_text(ids@.map_values(|s: String| s@), info.license@),
        None => info.license@ == unknown(),
    }
    &&& info.languages@ == stable_ranked(probes.language_counts@)
    &&& ranked(info.languages@)
    &&& info.languages@.to_multiset() == probes.language_counts@.to_multiset()
    &&& info.number_of_lines as nat == total_lines(probes.language_counts@)
    &&& info.dominant_language == info.languages@[0].language
    &&& info.custom_logo == logo
    &&& info.custom_colors == colors
    &&& info.disable_fields == disabled
    &&& info.bold_enabled == bold_flag
    &&& info.no_color_blocks == color_blocks_flag
}

/// Writes `n` dashes.
fn dash_string(n: usize) -> (r: String)
    ensures
        r@ == dashes(n as nat),
{
    let mut out = String::new();
    let mut i: usize = 0;
    while i < n
        invariant
            i <= n,
            out@ == dashes(i as nat),
        decreases n - i,
    {
        proof {
            reveal_strlit("-");
        }
        out.append("-");
        assert(out@ =~= dashes((i + 1) as nat));
        i = i + 1;
    }
    out
}

impl Info {
    /// The record is consistent: the language lines add up to the total, a
    /// non-empty language list has lines, and the author counts fit the
    /// display's numbers.
    pub open spec fn wf(&self) -> bool {
        &&& total_lines(self.languages@) == self.number_of_lines as nat
        &&& (self.languages@.len() > 0 ==> self.number_of_lines > 0)
        &&& forall|k: int|
            0 <= k < self.authors@.len() ==> #[trigger] self.authors@[k].percent <= u64::MAX
                && self.authors@[k].commits <= u64::MAX
    }

    /// The header and the single-line fields up to the creation date.
    fn top_info_lines(&self) -> (r: Vec<InfoLine>)
        requires
            self.wf(),
        ensures
            info_views(r@) == top_lines(*self),
    {
        let d = self.disable_fields;
        let mut out: Vec<InfoLine> = Vec::new();
        let ghost mut acc: Seq<(Seq<char>, Seq<char>)> = Seq::empty();
        if !d.git_info {
            let mut title = self.git_username.clone();
            if self.git_username.as_str().unicode_len() > 0 {
                proof {
                    reveal_strlit(" ~ ");
                }
                title.append(" ~ ");
                title.append(self.git_version.as_str());
            } else {
                title = self.git_version.clone();
            }
            assert(title@ =~= (if self.git_username@.len() > 0 {
                self.git_username@ + seq![' ', '~', ' '] + self.git_version@
            } else {
                self.git_version@
            }));
            let dash = dash_string(title.as_str().unicode_len());
            out.push(InfoLine { label: title, content: String::new() });
            out.push(InfoLine { label: String::new(), content: dash });
            assert(info_views(out@) =~= header_lines(*self));
        }
        proof {
            acc = when(!d.git_info, header_lines(*self));
            assert(info_views(out@) =~= acc);
        }
        if !d.project {
            push_line(&mut out, "Project: ", &self.project_name);
        }
        proof {
            acc = acc + when(!d.project, seq![("Project: "@, self.project_name@)]);
            assert(info_views(out@) =~= acc);
        }
        if !d.head {
            push_line(&mut out, "HEAD: ", &self.current_commit);
        }
        proof {
            acc = acc + when(!d.head, seq![("HEAD: "@, self.current_commit@)]);
            assert(info_views(out@) =~= acc);
        }
        if !d.pending && self.pending.as_str().unicode_len() > 0 {
            push_line(&mut out, "Pending: ", &self.pending);
        }
        proof {
            acc = acc + when(
                !d.pending && self.pending@.len() > 0,
                seq![("Pending: "@, self.pending@)],
            );
            assert(info_views(out@) =~= acc);
        }
        if !d.version {
            push_line(&mut out, "Version: ", &self.version);
        }
        proof {
            acc = acc + when(!d.version, seq![("Version: "@, self.version@)]);
            assert(info_views(out@) =~= acc);
        }
        if !d.created {
            push_line(&mut out, "Created: ", &self.creation_date);
        }
        proof {
            acc = acc + when(!d.created, seq![("Created: "@, self.creation_date@)]);
            assert(info_views(out@) =~= acc);
        }
        out
    }

    /// The language and author lists.
    fn list_info_lines(&self) -> (r: Vec<InfoLine>)
        requires
            self.wf(),
        ensures
            info_views(r@) == list_lines(*self),
    {
        let d = self.disable_fields;
        let mut out: Vec<InfoLine> = Vec::new();
        let ghost mut acc: Seq<(Seq<char>, Seq<char>)> = Seq::empty();
        if !d.languages && self.languages.len() > 0 {
            if self.languages.len() > 1 {
                let shares = bucket_languages(&self.languages);
                proof {
                    lemma_bucketed_le_total(self.languages@);
                }
                let more = language_list_lines(&shares, self.number_of_lines);
                push_all(&mut out, more);
            } else {
                let name = String::from_str(self.dominant_language.name());
                push_line(&mut out, "Language: ", &name);
            }
        }
        proof {
            acc = when(!d.languages && self.languages@.len() > 0, language_part(*self));
            assert(info_views(out@) =~= acc);
        }
        if !d.authors && self.authors.len() > 0 {
            let more = author_list_lines(&self.authors);
            push_all(&mut out, more);
        }
        proof {
            acc = acc + when(!d.authors && self.authors@.len() > 0, author_lines(self.authors@));
            assert(info_views(out@) =~= acc);
        }
        out
    }

    /// The single-line fields from the last change on.
    fn bottom_info_lines(&self) -> (r: Vec<InfoLine>)
        requires
            self.wf(),
        ensures
            info_views(r@) == bottom_lines(*self),
    {
        let d = self.disable_fields;
        let mut out: Vec<InfoLine> = Vec::new();
        let ghost mut acc: Seq<(Seq<char>, Seq<char>)> = Seq::empty();
        if !d.last_change {
            push_line(&mut out, "Last change: ", &self.last_change);
        }
        proof {
            acc = when(!d.last_change, seq![("Last change: "@, self.last_change@)]);
            assert(info_views(out@) =~= acc);
        }
        if !d.repo {
            push_line(&mut out, "Repo: ", &self.repo);
        }
        proof {
            acc = acc + when(!d.repo, seq![("Repo: "@, self.repo@)]);
            assert(info_views(out@) =~= acc);
        }
        if !d.commits {
            push_line(&mut out, "Commits: ", &self.commits);
        }
        proof {
            acc = acc + when(!d.commits, seq![("Commits: "@, self.commits@)]);
            assert(info_views(out@) =~= acc);
        }
        if !d.lines_of_code {
            let loc = decimal_string(self.number_of_lines);
            push_line(&mut out, "Lines of code: ", &loc);
        }
        proof {
            acc = acc + when(
                !d.lines_of_code,
                seq![("Lines of code: "@, decimal(self.number_of_lines as nat))],
            );
            assert(info_views(out@) =~= acc);
        }
        if !d.size {
            push_line(&mut out, "Size: ", &self.repo_size);
        }
        proof {
            acc = acc + when(!d.size, seq![("Size: "@, self.repo_size@)]);
            assert(info_views(out@) =~= acc);
        }
        if !d.license {
            push_line(&mut out, "License: ", &self.license);
        }
        proof {
            acc = acc + when(!d.license, seq![("License: "@, self.license@)]);
            assert(info_views(out@) =~= acc);
        }
        out
    }

    /// The lines of the info column, in order: the header, then each field
    /// that is not hidden, a field under its label. The pending changes are
    /// left out where there are none, the language and author lists where
    /// they are empty.
    pub fn info_lines(&self) -> (r: Vec<InfoLine>)
        requires
            self.wf(),
        ensures
            info_views(r@) == info_lines_of(*self),
    {
        let mut out = self.top_info_lines();
        push_all(&mut out, self.list_info_lines());
        push_all(&mut out, self.bottom_info_lines());
        out
    }

    /// The language whose logo is drawn: the chosen one, or the dominant
    /// language where none was chosen.
    pub fn logo_language(&self) -> (r: Language)
        ensures
            r == logo_language(*self),
    {
        if self.custom_logo == Language::Unknown {
            self.dominant_language
        } else {
            self.custom_logo
        }
    }

    /// The logo resource of the language whose logo is drawn.
    pub fn get_ascii(&self) -> (r: &'static str)
        ensures
            r@ == art_file_of(logo_language(*self)),
    {
        self.logo_language().get_ascii_art()
    }

    /// The palette of the drawn logo after the user's numbered overrides.
    pub fn colors(&self) -> (r: Vec<Color>)
        ensures
            r@ == with_overrides(
                colors_of(logo_language(*self)),
                self.custom_colors@.map_values(|s: String| s@),
            ),
    {
        let defaults = self.logo_language().get_colors();
        apply_custom_colors(&defaults, &self.custom_colors)
    }

    /// The colour of the labels: the first of the palette.
    pub fn title_color(&self) -> (r: Color)
        ensures
            r == if colors_of(logo_language(*self)).len() > 0 {
                with_overrides(
                    colors_of(logo_language(*self)),
                    self.custom_colors@.map_values(|s: String| s@),
                )[0]
            } else {
                Color::White
            },
    {
        let c = self.colors();
        if c.len() > 0 {
            c[0]
        } else {
            Color::White
        }
    }

    /// Paints an info line's label in the title colour, bold where asked,
    /// and puts the content behind it; an empty label is not painted.
    fn draw_line(&self, line: &InfoLine, key: &str) -> (r: String)
        ensures
            drawn(line_view(*line), r@),
    {
        if line.label.as_str().unicode_len() == 0 {
            line.content.clone()
        } else {
            let mut p = if self.bold_enabled {
                paint_bold(line.label.as_str(), key)
            } else {
                paint(line.label.as_str(), key)
            };
            let ghost painted = p@;
            p.append(line.content.as_str());
            assert(painted_form(line.label@, painted) && p@ == painted + line.content@);
            p
        }
    }

    /// The row of colour blocks: three painted spaces on each of the eight
    /// standard background colours.
    fn color_blocks() -> (r: String) {
        let palette = [
            Color::Black,
            Color::Red,
            Color::Green,
            Color::Yellow,
            Color::Blue,
            Color::Magenta,
            Color::Cyan,
            Color::White,
        ];
        let mut out = String::new();
        let mut i: usize = 0;
        while i < 8
            invariant
                i <= 8,
            decreases 8 - i,
        {
            let block = paint_background("   ", color_key(palette[i]));
            out.append(block.as_str());
            i = i + 1;
        }
        out
    }

    /// Draws the summary beside the logo: the logo's lines, `width` columns
    /// wide, on the left; on the right the info lines, each label painted in
    /// the title colour, then, unless switched off, a blank line and a row
    /// of colour blocks. The block ends with one blank line.
    pub fn render(&self, logo: &Vec<String>, width: usize) -> (r: String)
        requires
            self.wf(),
        ensures
            exists|texts: Seq<Seq<char>>| #[trigger] drawn_beside(*self, logo@, width as nat, texts, r@),
    {
        let color = self.title_color();
        let key = color_key(color);
        let lines = self.info_lines();
        let ghost want = info_lines_of(*self);
        let mut texts: Vec<String> = Vec::new();
        let mut i: usize = 0;
        while i < lines.len()
            invariant
                i <= lines@.len(),
                want == info_lines_of(*self),
                info_views(lines@) == want,
                texts@.len() == i,
                forall|k: int| 0 <= k < i ==> drawn(#[trigger] want[k], texts@[k]@),
            decreases lines.len() - i,
        {
            let t = self.draw_line(&lines[i], key);
            assert(want[i as int] == line_view(lines@[i as int]));
            texts.push(t);
            i = i + 1;
        }
        if !self.no_color_blocks {
            texts.push(String::new());
            texts.push(Info::color_blocks());
        }
        let rows_out = zip_columns(logo, width, &texts);
        let r = block_string(&rows_out);
        proof {
            let tv = line_views(texts@);
            assert forall|k: int| 0 <= k < want.len() implies drawn(#[trigger] want[k], tv[k]) by {
                assert(tv[k] == texts@[k]@);
            }
            assert(r@ == block_text(rows(line_views(logo@), width as nat, tv)));
            if !self.no_color_blocks {
                assert(tv[want.len() as int] == texts@[want.len() as int]@);
                assert(tv[want.len() as int] =~= Seq::<char>::empty());
            }
            assert(drawn_beside(*self, logo@, width as nat, tv, r@));
        }
        r
    }

    /// Assembles the summary from what discovery and the probes found.
    ///
    /// The failure policy: a path in no repository is `NotARepository` and a
    /// repository without a working tree is `BareRepository`; both are
    /// decided by `plan_probes` before any probe, and no probe finding is read
    /// then. Otherwise no line of code is `NoSourceCodeFound`; else an
    /// unreadable configuration is `ConfigurationUnavailable`; else an
    /// unresolved current commit is `ReferenceResolutionFailed`. Every other
    /// probe degrades: an empty answer shows as the sentinel `"??"` (or, for
    /// the pending changes, hides the field). The history is read once, and
    /// the creation date, the commit count and the authors all come from it.
    pub fn new(
        found: &Discovery,
        probes: &Probes,
        logo: Language,
        colors: Vec<String>,
        disabled: InfoFieldOn,
        bold_flag: bool,
        color_blocks_flag: bool,
        author_nb: usize,
    ) -> (r: Result<Info, Error>)
        requires
            total_lines(probes.language_counts@) <= u64::MAX,
        ensures
            found is NotARepository ==> r == Err::<Info, Error>(Error::NotARepository),
            found is Bare ==> r == Err::<Info, Error>(Error::BareRepository),
            found is WorkTree && total_lines(probes.language_counts@) == 0 ==> r == Err::<
                Info,
                Error,
            >(Error::NoSourceCodeFound),
            found is WorkTree && total_lines(probes.language_counts@) > 0 && probes.config is None
                ==> r == Err::<Info, Error>(Error::ConfigurationUnavailable),
            found is WorkTree && total_lines(probes.language_counts@) > 0 && probes.config is Some
                && probes.head is None ==> r == Err::<Info, Error>(Error::ReferenceResolutionFailed),
            found is WorkTree && total_lines(probes.language_counts@) > 0 && probes.config is Some
                && probes.head is Some ==> r is Ok,
            r is Ok ==> assembled(*probes, logo, colors, disabled, bold_flag, color_blocks_flag, author_nb as nat, r->Ok_0),
    {
        match plan_probes(found) {
            Ok(_) => {},
            Err(e) => {
                return Err(e);
            },
        }
        let (languages, number_of_lines) = match Language::get_language_stats(&probes.language_counts) {
            Ok(v) => v,
            Err(e) => {
                return Err(e);
            },
        };
        let config = match &probes.config {
            Some(c) => c,
            None => {
                return Err(Error::ConfigurationUnavailable);
            },
        };
        let head = match &probes.head {
            Some(h) => h,
            None => {
                return Err(Error::ReferenceResolutionFailed);
            },
        };
        let url = remote_url(config);
        let labels = refs_at_head(head, &probes.refs);
        let records = parse_history(&probes.history);
        let authors = get_authors(&records, author_nb);
        let license = match &probes.license_ids {
            Some(ids) => license_summary(ids),
            None => unknown_string(),
        };
        let listing = match &probes.file_listing {
            Some(l) => Some(l.as_str()),
            None => None,
        };
        let dominant_language = Language::get_dominant_language(&languages);
        let info = Info {
            git_version: strip_newlines(probes.git_version.as_str()),
            git_username: strip_newlines(probes.git_username.as_str()),
            project_name: project_name(url.as_str()),
            current_commit: commit_info(head, &labels),
            version: or_unknown(probes.version.as_str()),
            creation_date: get_creation_date(&records),
            dominant_language,
            languages,
            authors,
            last_change: or_unknown(probes.last_change.as_str()),
            repo: url,
            commits: get_number_of_commits(&records),
            pending: get_pending_changes(&probes.status),
            repo_size: get_packed_size(&probes.count_objects, listing),
            number_of_lines,
            license,
            custom_logo: logo,
            custom_colors: colors,
            disable_fields: disabled,
            bold_enabled: bold_flag,
            no_color_blocks: color_blocks_flag,
        };
        assert(record_views(records@) == parse_lines(line_views(probes.history@)));
        assert(info.wf()) by {
            assert(info.languages@.len() > 0);
        }
        proof {
            let recs = parse_lines(line_views(probes.history@));
            assert(record_views(records@).len() == records@.len());
            if records@.len() > 0 {
                assert(record_views(records@).last() == (records@.last().time@, records@.last().author@));
            }
            assert(info.creation_date@ == (if recs.len() > 0 {
                recs.last().0
            } else {
                unknown()
            }));
            assert(info.commits@ == decimal(recs.len()));
            assert(ranks_authors(records@, author_nb as nat, info.authors@));
            assert(info.repo_size@ == match probes.file_listing {
                Some(l) => packed_size_of(line_views(probes.count_objects@)) + seq![' ', '('] + decimal(
                    crate::probes::char_count(l@, '\n'),
                ) + seq![' ', 'f', 'i', 'l', 'e', 's', ')'],
                None => packed_size_of(line_views(probes.count_objects@)),
            });
            assert(match probes.license_ids {
                Some(ids) => license_text(ids@.map_values(|s: String| s@), info.license@),
                None => info.license@ == unknown(),
            });
        }
        Ok(info)
    }
}

} // verus!
