//! Reading the output of the update tools into an update report.

use vstd::prelude::*;
use crate::json::{firmware_names, firmware_names_from, json_document, parse_json};
use crate::text::{
    is_ws, lemma_filter_map_step, lemma_single_line, lemma_words_of_space_then,
    lemma_words_of_word_then,
    chars_equal, chars_of, chars_start_with, decode_lossy, lines_of, split_lines, split_words,
    string_of, trim_chars, trim_of, utf8_lossy, words_of,
};

verus! {

/// One package with a newer version available.
#[derive(Debug, Clone, PartialEq, Eq)]
pub struct PackageUpdate {
    pub name: String,
    pub current_version: String,
    pub new_version: String,
    /// Where the update comes from: "Arch" or "AUR".
    pub source: String,
}

/// The characters of a `PackageUpdate`'s fields.
pub struct UpdateModel {
    pub name: Seq<char>,
    pub current_version: Seq<char>,
    pub new_version: Seq<char>,
    pub source: Seq<char>,
}

impl View for PackageUpdate {
    type V = UpdateModel;

    open spec fn view(&self) -> UpdateModel {
        UpdateModel {
            name: self.name@,
            current_version: self.current_version@,
            new_version: self.new_version@,
            source: self.source@,
        }
    }
}

/// The views of a list of updates.
pub open spec fn models_of(v: Seq<PackageUpdate>) -> Seq<UpdateModel> {
    v.map_values(|u: PackageUpdate| u@)
}

/// What one line of `checkupdates` or `yay -Qua` says: `name current -> new`,
/// with anything after the fourth word ignored.
pub open spec fn update_of_line(line: Seq<char>, source: Seq<char>) -> Option<UpdateModel> {
    let w = words_of(line);
    if w.len() >= 4 && w[2] == "->"@ {
        Some(UpdateModel { name: w[0], current_version: w[1], new_version: w[3], source: source })
    } else {
        None
    }
}

/// The updates that the lines announce, in order; other lines are skipped.
pub open spec fn updates_of_lines(lines: Seq<Seq<char>>, source: Seq<char>) -> Seq<UpdateModel>
    decreases lines.len(),
{
    if lines.len() == 0 {
        seq![]
    } else {
        let before = updates_of_lines(lines.drop_last(), source);
        match update_of_line(lines.last(), source) {
            Some(u) => before.push(u),
            None => before,
        }
    }
}

/// The updates listed in the text of a package manager's output.
pub open spec fn updates_of_text(text: Seq<char>, source: Seq<char>) -> Seq<UpdateModel> {
    updates_of_lines(lines_of(text), source)
}

/// Reads `name current -> new` lines into updates from `source`.
pub fn parse_update_lines(text: &str, source: &str) -> (r: Vec<PackageUpdate>)
    ensures
        models_of(r@) == updates_of_text(text@, source@),
{
    let lines = split_lines(&chars_of(text));
    let mut out: Vec<PackageUpdate> = Vec::new();
    let mut i: usize = 0;
    while i < lines.len()
        invariant
            i <= lines.len(),
            lines.deep_view() == lines_of(text@),
            models_of(out@) == updates_of_lines(lines.deep_view().take(i as int), source@),
        decreases lines.len() - i,
    {
        let ghost taken = lines.deep_view().take(i as int);
        assert(lines.deep_view().take(i + 1).drop_last() =~= taken);
        assert(lines@[i as int]@ == lines.deep_view()[i as int]);
        let words = split_words(&lines[i]);
        if words.len() >= 4 && chars_equal(&words[2], "->") {
            assert(words@[2]@ == words.deep_view()[2]);
            let w0 = &words[0];
            let w1 = &words[1];
            let w3 = &words[3];
            let u = PackageUpdate {
                name: string_of(w0, 0, w0.len()),
                current_version: string_of(w1, 0, w1.len()),
                new_version: string_of(w3, 0, w3.len()),
                source: String::from_str(source),
            };
            assert(w0@.subrange(0, w0@.len() as int) =~= words.deep_view()[0]);
            assert(w1@.subrange(0, w1@.len() as int) =~= words.deep_view()[1]);
            assert(w3@.subrange(0, w3@.len() as int) =~= words.deep_view()[3]);
            let ghost before = out@;
            out.push(u);
            assert(models_of(out@) =~= models_of(before).push(u@));
        } else {
            assert(words.len() >= 4 ==> words@[2]@ == words.deep_view()[2]);
        }
        i += 1;
    }
    assert(lines.deep_view().take(lines.len() as int) =~= lines.deep_view());
    out
}

/// Whether `t` begins with `p`.
pub open spec fn has_prefix(t: Seq<char>, p: Seq<char>) -> bool {
    p.len() <= t.len() && t.take(p.len() as int) == p
}

/// What one line of `mise outdated` says: the trimmed line names a tool that
/// can be updated, unless it is empty or starts with "mise".
pub open spec fn tool_of_line(line: Seq<char>) -> Option<Seq<char>> {
    let t = trim_of(line);
    if t.len() > 0 && !has_prefix(t, "mise"@) {
        Some(t)
    } else {
        None
    }
}

/// The tools that the lines announce, in order.
pub open spec fn tools_of_lines(lines: Seq<Seq<char>>) -> Seq<Seq<char>>
    decreases lines.len(),
{
    if lines.len() == 0 {
        seq![]
    } else {
        let before = tools_of_lines(lines.drop_last());
        match tool_of_line(lines.last()) {
            Some(t) => before.push(t),
            None => before,
        }
    }
}

/// The tools listed in the text of `mise outdated`.
pub open spec fn tools_of_text(text: Seq<char>) -> Seq<Seq<char>> {
    tools_of_lines(lines_of(text))
}

/// Reads the lines of `mise outdated` into the trimmed entries that name tools.
pub fn parse_tool_lines(text: &str) -> (r: Vec<String>)
    ensures
        r.deep_view() == tools_of_text(text@),
{
    let lines = split_lines(&chars_of(text));
    let mut out: Vec<String> = Vec::new();
    let mut i: usize = 0;
    while i < lines.len()
        invariant
            i <= lines.len(),
            lines.deep_view() == lines_of(text@),
            out.deep_view() == tools_of_lines(lines.deep_view().take(i as int)),
        decreases lines.len() - i,
    {
        let ghost taken = lines.deep_view().take(i as int);
        assert(lines.deep_view().take(i + 1).drop_last() =~= taken);
        assert(lines@[i as int]@ == lines.deep_view()[i as int]);
        let t = trim_chars(&lines[i]);
        if t.len() > 0 && !chars_start_with(&t, "mise") {
            let entry = string_of(&t, 0, t.len());
            assert(t@.subrange(0, t@.len() as int) =~= t@);
            let ghost before = out.deep_view();
            out.push(entry);
            assert(out.deep_view() =~= before.push(t@));
        }
        i += 1;
    }
    assert(lines.deep_view().take(lines.len() as int) =~= lines.deep_view());
    out
}

/// What running an update tool gave back: whether it exited successfully, and
/// what it wrote to its standard output.
#[derive(Debug, Clone)]
pub struct CommandOutput {
    pub success: bool,
    pub stdout: Vec<u8>,
}

/// Whether `output` is that of a tool that ran and exited successfully.
pub open spec fn succeeded(output: Option<CommandOutput>) -> bool {
    output is Some && output.unwrap().success
}

/// The official repository updates that `checkupdates` reported; none when it
/// could not run or failed.
pub open spec fn arch_updates_of(output: Option<CommandOutput>) -> Seq<UpdateModel> {
    if succeeded(output) {
        updates_of_text(utf8_lossy(output.unwrap().stdout@), "Arch"@)
    } else {
        seq![]
    }
}

/// The AUR updates that `yay -Qua` reported; none when it could not run or failed.
pub open spec fn aur_updates_of(output: Option<CommandOutput>) -> Seq<UpdateModel> {
    if succeeded(output) {
        updates_of_text(utf8_lossy(output.unwrap().stdout@), "AUR"@)
    } else {
        seq![]
    }
}

/// The firmware updates that `fwupdmgr get-updates --json --no-history` reported;
/// none when it could not run or failed.
pub open spec fn firmware_updates_of(output: Option<CommandOutput>) -> Seq<Seq<char>> {
    if succeeded(output) {
        firmware_names(json_document(utf8_lossy(output.unwrap().stdout@)))
    } else {
        seq![]
    }
}

/// The tools that `mise outdated` listed, whatever its exit status.
pub open spec fn mise_updates_of(output: Option<CommandOutput>) -> Seq<Seq<char>> {
    match output {
        Some(o) => tools_of_text(utf8_lossy(o.stdout@)),
        None => seq![],
    }
}

/// Updates from the official Arch repositories, from the output of `checkupdates`
/// (`None` when the command could not be run).
pub fn check_arch_updates(output: &Option<CommandOutput>) -> (r: Vec<PackageUpdate>)
    ensures
        models_of(r@) == arch_updates_of(*output),
{
    match output {
        Some(o) if o.success => {
            let text = decode_lossy(o.stdout.as_slice());
            parse_update_lines(text.as_str(), "Arch")
        },
        _ => Vec::new(),
    }
}

/// Updates from the AUR, from the output of `yay -Qua`
/// (`None` when the command could not be run).
pub fn check_aur_updates(output: &Option<CommandOutput>) -> (r: Vec<PackageUpdate>)
    ensures
        models_of(r@) == aur_updates_of(*output),
{
    match output {
        Some(o) if o.success => {
            let text = decode_lossy(o.stdout.as_slice());
            parse_update_lines(text.as_str(), "AUR")
        },
        _ => Vec::new(),
    }
}

/// Devices with firmware updates from the Linux Vendor Firmware Service, from the
/// output of `fwupdmgr get-updates --json --no-history` (`None` when the command
/// could not be run).
pub fn check_firmware_updates(output: &Option<CommandOutput>) -> (r: Vec<String>)
    ensures
        r.deep_view() == firmware_updates_of(*output),
{
    match output {
        Some(o) if o.success => {
            let text = decode_lossy(o.stdout.as_slice());
            firmware_names_from(&parse_json(text.as_str()))
        },
        _ => Vec::new(),
    }
}

/// Whether `omarchy update available` says that a new release is available: it
/// says so by exiting successfully.
pub fn check_omarchy_update(output: &Option<CommandOutput>) -> (r: bool)
    ensures
        r == succeeded(*output),
{
    match output {
        Some(o) => o.success,
        None => false,
    }
}

/// Developer tools that `mise outdated` lists as outdated
/// (`None` when the command could not be run).
pub fn check_mise_updates(output: &Option<CommandOutput>) -> (r: Vec<String>)
    ensures
        r.deep_view() == mise_updates_of(*output),
{
    match output {
        Some(o) => {
            let text = decode_lossy(o.stdout.as_slice());
            parse_tool_lines(text.as_str())
        },
        None => Vec::new(),
    }
}

/// All pending updates, by where they come from.
#[derive(Debug, Clone)]
pub struct UpdateReport {
    pub arch_updates: Vec<PackageUpdate>,
    pub aur_updates: Vec<PackageUpdate>,
    pub omarchy_update_needed: bool,
    pub firmware_updates: Vec<String>,
    pub mise_updates: Vec<String>,
}

impl UpdateReport {
    /// The number of pending updates: one per package, device and tool, and one
    /// for a new Omarchy release.
    pub open spec fn total(&self) -> int {
        self.arch_updates@.len() + self.aur_updates@.len() + (if self.omarchy_update_needed {
            1int
        } else {
            0int
        }) + self.firmware_updates@.len() + self.mise_updates@.len()
    }

    /// The number of pending updates.
    pub fn total_updates(&self) -> (r: usize)
        requires
            self.total() <= usize::MAX,
        ensures
            r == self.total(),
    {
        self.arch_updates.len() + self.aur_updates.len() + (if self.omarchy_update_needed {
            1
        } else {
            0
        }) + self.firmware_updates.len() + self.mise_updates.len()
    }

    /// Whether nothing is pending.
    pub fn is_all_up_to_date(&self) -> (r: bool)
        ensures
            r == (self.total() == 0),
    {
        self.arch_updates.len() == 0 && self.aur_updates.len() == 0 && !self.omarchy_update_needed
            && self.firmware_updates.len() == 0 && self.mise_updates.len() == 0
    }
}

impl Default for UpdateReport {
    fn default() -> (r: Self)
        ensures
            r.arch_updates@.len() == 0,
            r.aur_updates@.len() == 0,
            !r.omarchy_update_needed,
            r.firmware_updates@.len() == 0,
            r.mise_updates@.len() == 0,
    {
        UpdateReport {
            arch_updates: Vec::new(),
            aur_updates: Vec::new(),
            omarchy_update_needed: false,
            firmware_updates: Vec::new(),
            mise_updates: Vec::new(),
        }
    }
}

/// The report made from the outputs of the five update tools, each `None` when
/// that tool could not be run: `checkupdates`, `yay -Qua`,
/// `omarchy update available`, `fwupdmgr get-updates --json --no-history` and
/// `mise outdated`.
pub fn scan_system_updates(
    arch: &Option<CommandOutput>,
    aur: &Option<CommandOutput>,
    omarchy: &Option<CommandOutput>,
    firmware: &Option<CommandOutput>,
    mise: &Option<CommandOutput>,
) -> (r: UpdateReport)
    ensures
        models_of(r.arch_updates@) == arch_updates_of(*arch),
        models_of(r.aur_updates@) == aur_updates_of(*aur),
        r.omarchy_update_needed == succeeded(*omarchy),
        r.firmware_updates.deep_view() == firmware_updates_of(*firmware),
        r.mise_updates.deep_view() == mise_updates_of(*mise),
{
    UpdateReport {
        arch_updates: check_arch_updates(arch),
        aur_updates: check_aur_updates(aur),
        omarchy_update_needed: check_omarchy_update(omarchy),
        firmware_updates: check_firmware_updates(firmware),
        mise_updates: check_mise_updates(mise),
    }
}

/// Reading two runs of lines one after the other gives the updates of the first
/// followed by those of the second.
pub proof fn lemma_updates_of_joined_lines(a: Seq<Seq<char>>, b: Seq<Seq<char>>, source: Seq<char>)
    ensures
        updates_of_lines(a + b, source) == updates_of_lines(a, source) + updates_of_lines(b, source),
    decreases b.len(),
{
    if b.len() == 0 {
        assert(a + b =~= a);
        assert(updates_of_lines(a, source) + Seq::<UpdateModel>::empty() =~= updates_of_lines(a, source));
    } else {
        assert((a + b).drop_last() =~= a + b.drop_last());
        assert((a + b).last() == b.last());
        lemma_updates_of_joined_lines(a, b.drop_last(), source);
        match update_of_line(b.last(), source) {
            Some(u) => {
                assert(updates_of_lines(a, source) + updates_of_lines(b.drop_last(), source).push(u)
                    =~= (updates_of_lines(a, source) + updates_of_lines(b.drop_last(), source)).push(u));
            },
            None => {},
        }
    }
}

/// Each update read from the lines comes from `source`, and there are no more
/// updates than lines.
pub proof fn lemma_updates_from_source(lines: Seq<Seq<char>>, source: Seq<char>)
    ensures
        updates_of_lines(lines, source).len() <= lines.len(),
        forall|i: int|
            0 <= i < updates_of_lines(lines, source).len() ==> (#[trigger] updates_of_lines(
                lines,
                source,
            )[i]).source == source,
    decreases lines.len(),
{
    if lines.len() > 0 {
        lemma_updates_from_source(lines.drop_last(), source);
    }
}

/// Each entry read from `mise outdated` is a non-empty trimmed line that does not
/// start with "mise", and there are no more entries than lines.
pub proof fn lemma_tool_entries(lines: Seq<Seq<char>>)
    ensures
        tools_of_lines(lines).len() <= lines.len(),
        forall|i: int|
            0 <= i < tools_of_lines(lines).len() ==> {
                let t = #[trigger] tools_of_lines(lines)[i];
                t.len() > 0 && !has_prefix(t, "mise"@)
            },
    decreases lines.len(),
{
    if lines.len() > 0 {
        lemma_tool_entries(lines.drop_last());
    }
}

/// A report counts no update exactly when every list is empty and no new
/// Omarchy release is available.
pub proof fn lemma_nothing_pending(report: UpdateReport)
    ensures
        report.total() == 0 <==> (report.arch_updates@.len() == 0 && report.aur_updates@.len() == 0
            && !report.omarchy_update_needed && report.firmware_updates@.len() == 0
            && report.mise_updates@.len() == 0),
{
}

/// One more pending update adds one to the total: a package, device or tool
/// appended to one list, or a new Omarchy release where there was none.
pub proof fn lemma_one_more_update(r1: UpdateReport, r2: UpdateReport)
    requires
        ({
            let same_arch = r2.arch_updates@ == r1.arch_updates@;
            let same_aur = r2.aur_updates@ == r1.aur_updates@;
            let same_fw = r2.firmware_updates@ == r1.firmware_updates@;
            let same_mise = r2.mise_updates@ == r1.mise_updates@;
            let same_omarchy = r2.omarchy_update_needed == r1.omarchy_update_needed;
            ||| (exists|u: PackageUpdate| r2.arch_updates@ == r1.arch_updates@.push(u)) && same_aur
                && same_fw && same_mise && same_omarchy
            ||| (exists|u: PackageUpdate| r2.aur_updates@ == r1.aur_updates@.push(u)) && same_arch
                && same_fw && same_mise && same_omarchy
            ||| (exists|d: String| r2.firmware_updates@ == r1.firmware_updates@.push(d)) && same_arch
                && same_aur && same_mise && same_omarchy
            ||| (exists|t: String| r2.mise_updates@ == r1.mise_updates@.push(t)) && same_arch
                && same_aur && same_fw && same_omarchy
            ||| !r1.omarchy_update_needed && r2.omarchy_update_needed && same_arch && same_aur
                && same_fw && same_mise
        }),
    ensures
        r2.total() == r1.total() + 1,
{
}

/// Every line of at least four words whose third word is "->" gives one update,
/// in the order of the lines, made of its first, second and fourth words and the
/// source; no other line gives one.
pub proof fn lemma_updates_are_arrow_lines(lines: Seq<Seq<char>>, source: Seq<char>)
    ensures
        updates_of_lines(lines, source) == lines.filter(
            |l: Seq<char>| words_of(l).len() >= 4 && words_of(l)[2] == "->"@,
        ).map_values(
            |l: Seq<char>|
                UpdateModel {
                    name: words_of(l)[0],
                    current_version: words_of(l)[1],
                    new_version: words_of(l)[3],
                    source: source,
                },
        ),
    decreases lines.len(),
{
    let p = |l: Seq<char>| words_of(l).len() >= 4 && words_of(l)[2] == "->"@;
    let f = |l: Seq<char>|
        UpdateModel {
            name: words_of(l)[0],
            current_version: words_of(l)[1],
            new_version: words_of(l)[3],
            source: source,
        };
    if lines.len() == 0 {
        reveal(Seq::filter);
        assert(lines.filter(p).map_values(f) =~= Seq::<UpdateModel>::empty());
    } else {
        lemma_updates_are_arrow_lines(lines.drop_last(), source);
        lemma_filter_map_step(lines, p, f);
    }
}

/// The line `n c -> v`, for any words `n`, `c` and `v`, is the update of `n` from
/// `c` to `v`.
pub proof fn lemma_update_of_arrow_line(
    n: Seq<char>,
    c: Seq<char>,
    v: Seq<char>,
    source: Seq<char>,
)
    requires
        n.len() > 0 && c.len() > 0 && v.len() > 0,
        forall|i: int| 0 <= i < n.len() ==> !is_ws(#[trigger] n[i]),
        forall|i: int| 0 <= i < c.len() ==> !is_ws(#[trigger] c[i]),
        forall|i: int| 0 <= i < v.len() ==> !is_ws(#[trigger] v[i]),
    ensures
        updates_of_text(n + seq![' '] + c + seq![' ', '-', '>', ' '] + v, source) == seq![
            UpdateModel { name: n, current_version: c, new_version: v, source: source },
        ],
{
    let line = n + seq![' '] + c + seq![' ', '-', '>', ' '] + v;
    let arrow = seq!['-', '>'];
    let t2 = seq![' '] + v;
    let a = arrow + t2;
    let t1 = seq![' '] + a;
    let b = c + t1;
    let t0 = seq![' '] + b;
    assert(line =~= n + t0);
    assert forall|i: int| 0 <= i < line.len() implies line[i] != '\n' by {
        if i < n.len() {
            assert(line[i] == n[i]);
        } else if n.len() + 1 <= i < n.len() + 1 + c.len() {
            assert(line[i] == c[i - n.len() - 1]);
        } else if i >= n.len() + 5 + c.len() {
            assert(line[i] == v[i - n.len() - 5 - c.len()]);
        }
    }
    lemma_single_line(line);
    lemma_words_of_word_then(v, Seq::<char>::empty());
    assert(v + Seq::<char>::empty() =~= v);
    assert(words_of(Seq::<char>::empty()) =~= Seq::<Seq<char>>::empty());
    lemma_words_of_space_then(' ', v);
    assert forall|i: int| 0 <= i < arrow.len() implies !is_ws(#[trigger] arrow[i]) by {}
    lemma_words_of_word_then(arrow, t2);
    lemma_words_of_space_then(' ', a);
    lemma_words_of_word_then(c, t1);
    lemma_words_of_space_then(' ', b);
    lemma_words_of_word_then(n, t0);
    let w = words_of(line);
    assert(w =~= seq![n, c, arrow, v]);
    reveal_strlit("->");
    assert(arrow =~= "->"@);
    assert(seq![line].drop_last() =~= Seq::<Seq<char>>::empty());
    assert(updates_of_lines(seq![line], source) == updates_of_lines(Seq::<Seq<char>>::empty(), source).push(
        UpdateModel { name: n, current_version: c, new_version: v, source: source },
    ));
}

/// Every line whose trimmed text is not empty and does not start with "mise" gives
/// exactly that text, in the order of the lines; no other line gives anything.
pub proof fn lemma_tools_are_trimmed_lines(lines: Seq<Seq<char>>)
    ensures
        tools_of_lines(lines) == lines.filter(
            |l: Seq<char>|
                trim_of(l).len() > 0 && !(trim_of(l).len() >= 4 && trim_of(l).take(4) == "mise"@),
        ).map_values(|l: Seq<char>| trim_of(l)),
    decreases lines.len(),
{
    let p = |l: Seq<char>|
        trim_of(l).len() > 0 && !(trim_of(l).len() >= 4 && trim_of(l).take(4) == "mise"@);
    let f = |l: Seq<char>| trim_of(l);
    reveal_strlit("mise");
    assert("mise"@.len() == 4);
    if lines.len() == 0 {
        reveal(Seq::filter);
        assert(lines.filter(p).map_values(f) =~= Seq::<Seq<char>>::empty());
    } else {
        lemma_tools_are_trimmed_lines(lines.drop_last());
        lemma_filter_map_step(lines, p, f);
    }
}

} // verus!
