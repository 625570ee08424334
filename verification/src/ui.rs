//! What the window shows: the texts and states of the status badge, the update
//! button and the rows of the report, decided from plain values.

use vstd::prelude::*;
use crate::checker::{CommandOutput, UpdateReport};
use crate::text::{
    is_decimal_digit, lemma_decimal_stands_for, value_of_digits, chars_of, decode_lossy, decimal_of, push_decimal, string_of, trim_chars, trim_of, utf8_lossy};

verus! {

/// The window's view of a report.
#[derive(Debug, Clone, PartialEq, Eq)]
pub struct ReportView {
    /// The text of the status badge.
    pub badge: String,
    /// Whether updates are pending: the badge takes the "updates available" style
    /// and the "Update Now" button is enabled; otherwise the badge takes the
    /// "up to date" style and the button is disabled.
    pub updates_pending: bool,
    pub arch_subtitle: String,
    pub aur_subtitle: String,
    pub omarchy_subtitle: String,
    pub firmware_subtitle: String,
    pub mise_subtitle: String,
}

/// `none` when `n` is zero, otherwise `n` in decimal followed by `suffix`.
pub open spec fn count_text(n: nat, none: Seq<char>, suffix: Seq<char>) -> Seq<char> {
    if n == 0 {
        none
    } else {
        decimal_of(n) + suffix
    }
}

/// The text of the status badge for `total` pending updates.
pub open spec fn badge_text(total: nat) -> Seq<char> {
    if total == 0 {
        "\u{2713} System is Fully Up to Date"@
    } else {
        "\u{26a0} "@ + decimal_of(total) + " Updates Available"@
    }
}

/// `none` when `n` is zero, otherwise `n` followed by `suffix`.
fn counted(n: usize, none: &str, suffix: &str) -> (r: String)
    ensures
        r@ == count_text(n as nat, none@, suffix@),
{
    if n == 0 {
        String::from_str(none)
    } else {
        let mut s = String::new();
        push_decimal(&mut s, n as u64);
        s.append(suffix);
        assert(Seq::<char>::empty() + decimal_of(n as nat) =~= decimal_of(n as nat));
        s
    }
}

/// What the window shows for `report`.
pub fn present_report(report: &UpdateReport) -> (r: ReportView)
    requires
        report.total() <= usize::MAX,
    ensures
        r.badge@ == badge_text(report.total() as nat),
        r.updates_pending == (report.total() > 0),
        r.arch_subtitle@ == count_text(
            report.arch_updates@.len(),
            "Up to date"@,
            " packages pending update"@,
        ),
        r.aur_subtitle@ == count_text(
            report.aur_updates@.len(),
            "Up to date"@,
            " packages pending update"@,
        ),
        r.omarchy_subtitle@ == (if report.omarchy_update_needed {
            "New Omarchy release available"@
        } else {
            "Up to date"@
        }),
        r.firmware_subtitle@ == count_text(
            report.firmware_updates@.len(),
            "All devices on latest firmware"@,
            " firmware updates available"@,
        ),
        r.mise_subtitle@ == count_text(
            report.mise_updates@.len(),
            "All toolchains up to date"@,
            " tools can be updated"@,
        ),
{
    let total = report.total_updates();
    let badge = if total == 0 {
        String::from_str("\u{2713} System is Fully Up to Date")
    } else {
        let mut s = String::from_str("\u{26a0} ");
        push_decimal(&mut s, total as u64);
        s.append(" Updates Available");
        s
    };
    ReportView {
        badge,
        updates_pending: total > 0,
        arch_subtitle: counted(report.arch_updates.len(), "Up to date", " packages pending update"),
        aur_subtitle: counted(report.aur_updates.len(), "Up to date", " packages pending update"),
        omarchy_subtitle: if report.omarchy_update_needed {
            String::from_str("New Omarchy release available")
        } else {
            String::from_str("Up to date")
        },
        firmware_subtitle: counted(
            report.firmware_updates.len(),
            "All devices on latest firmware",
            " firmware updates available",
        ),
        mise_subtitle: counted(report.mise_updates.len(), "All toolchains up to date", " tools can be updated"),
    }
}

/// The status badge once the update is over: its text, and whether it takes
/// the "up to date" style (after a success) or keeps its style.
pub fn finished_badge(success: bool) -> (r: (String, bool))
    ensures
        r.0@ == (if success {
            "\u{2713} Update Complete"@
        } else {
            "\u{26a0} Update Interrupted or Cancelled"@
        }),
        r.1 == success,
{
    if success {
        (String::from_str("\u{2713} Update Complete"), true)
    } else {
        (String::from_str("\u{26a0} Update Interrupted or Cancelled"), false)
    }
}

/// The kernel line of the banner, from the text that `uname -r` printed
/// (`None` when it could not be run): the trimmed release, or "Linux".
pub open spec fn kernel_line_of(release: Option<Seq<char>>) -> Seq<char> {
    let shown = match release {
        Some(t) => trim_of(t),
        None => "Linux"@,
    };
    "Kernel: "@ + shown + " | Omarchy Linux"@
}

/// The kernel line of the banner, from the text that `uname -r` printed.
pub fn kernel_line(release: Option<&str>) -> (r: String)
    ensures
        r@ == kernel_line_of(match release {
            Some(t) => Some(t@),
            None => None,
        }),
{
    let mut s = String::from_str("Kernel: ");
    match release {
        Some(text) => {
            let t = trim_chars(&chars_of(text));
            let shown = string_of(&t, 0, t.len());
            assert(t@.subrange(0, t@.len() as int) =~= t@);
            s.append(shown.as_str());
        },
        None => {
            s.append("Linux");
        },
    }
    s.append(" | Omarchy Linux");
    s
}

/// The kernel line of the banner, from the output of `uname -r` (`None` when it
/// could not be run), whatever its exit status.
pub fn kernel_info(uname: &Option<CommandOutput>) -> (r: String)
    ensures
        r@ == kernel_line_of(match uname {
            Some(o) => Some(utf8_lossy(o.stdout@)),
            None => None,
        }),
{
    match uname {
        Some(o) => {
            let text = decode_lossy(o.stdout.as_slice());
            kernel_line(Some(text.as_str()))
        },
        None => kernel_line(None),
    }
}

/// Whatever the number of pending updates, the badge shows it in full: "⚠ ",
/// decimal digits that stand for the total itself, then " Updates Available".
pub proof fn lemma_badge_shows_total(total: nat)
    requires
        total > 0,
    ensures
        exists|d: Seq<char>|
            #![trigger value_of_digits(d)]
            badge_text(total) == "\u{26a0} "@ + d + " Updates Available"@ && d.len() > 0 && (forall|i: int|
                0 <= i < d.len() ==> is_decimal_digit(#[trigger] d[i])) && d[0] != '0'
                && value_of_digits(d) == total,
{
    lemma_decimal_stands_for(total);
    let d = decimal_of(total);
    assert(value_of_digits(d) == total);
}

/// A row that counts something shows the count in full: decimal digits that
/// stand for `n` itself, then the suffix.
pub proof fn lemma_count_shows_number(n: nat, none: Seq<char>, suffix: Seq<char>)
    requires
        n > 0,
    ensures
        exists|d: Seq<char>|
            #![trigger value_of_digits(d)]
            count_text(n, none, suffix) == d + suffix && d.len() > 0 && (forall|i: int|
                0 <= i < d.len() ==> is_decimal_digit(#[trigger] d[i])) && d[0] != '0'
                && value_of_digits(d) == n,
{
    lemma_decimal_stands_for(n);
    let d = decimal_of(n);
    assert(value_of_digits(d) == n);
}

} // verus!
