//! Whether the host has an NVIDIA display controller, from what `lspci -mm`
//! prints.
use crate::text;
use vstd::prelude::*;

verus! {

/// Whether the class of a device, in small letters, is one of display controllers.
pub open spec fn is_display_class(class: Seq<char>) -> bool {
    ||| text::holds(class, "vga compatible controller"@)
    ||| text::holds(class, "3d controller"@)
    ||| text::holds(class, "display controller"@)
}

/// Whether a line of `lspci -mm` is about a display controller of NVIDIA. The
/// first quoted field is the class, and the one behind it is the vendor; case
/// does not matter.
pub open spec fn is_nvidia_display(line: Seq<char>) -> bool {
    let parts = text::pieces(line, '"');
    &&& parts.len() >= 5
    &&& is_display_class(text::small_letters(parts[1]))
    &&& text::small_letters(parts[3]) == "nvidia corporation"@
}

/// Whether a line of the output is about a display controller of NVIDIA.
pub open spec fn has_nvidia_line(lines: Seq<Seq<char>>) -> bool {
    exists|i: int| 0 <= i < lines.len() && is_nvidia_display(#[trigger] lines[i])
}

/// Whether a line of `lspci -mm` is about a display controller of NVIDIA.
pub fn names_nvidia_display(line: &str) -> (r: bool)
    ensures
        r == is_nvidia_display(line@),
{
    let parts: Vec<String> = text::split(line, '"');
    assert(parts.deep_view().len() == parts@.len());
    if parts.len() < 5 {
        return false;
    }
    assert(parts.deep_view()[1] == parts@[1]@);
    assert(parts.deep_view()[3] == parts@[3]@);
    let class: String = text::to_ascii_lowercase(parts[1].as_str());
    let vendor: String = text::to_ascii_lowercase(parts[3].as_str());
    let is_display: bool = text::contains(class.as_str(), "vga compatible controller")
        || text::contains(class.as_str(), "3d controller") || text::contains(
        class.as_str(),
        "display controller",
    );
    is_display && text::same(vendor.as_str(), "nvidia corporation")
}

/// Whether the output of `lspci -mm` lists a display controller of NVIDIA.
pub fn parse_lspci_mm_for_nvidia(stdout: &str) -> (r: bool)
    ensures
        r == has_nvidia_line(text::lines_of(stdout@)),
{
    let lines: Vec<String> = text::lines(stdout);
    let mut i: usize = 0;
    while i < lines.len()
        invariant
            0 <= i <= lines@.len(),
            lines.deep_view() == text::lines_of(stdout@),
            forall|j: int| 0 <= j < i ==> !is_nvidia_display(#[trigger] lines.deep_view()[j]),
        decreases lines@.len() - i,
    {
        if names_nvidia_display(lines[i].as_str()) {
            assert(is_nvidia_display(lines.deep_view()[i as int]));
            return true;
        }
        i += 1;
    }
    false
}

/// Two outputs on lines of their own list a controller of NVIDIA exactly where
/// one of them does, and no output lists none: class and vendor are found on one
/// and the same line.
pub proof fn law_lines_are_judged_alone(a: Seq<char>, b: Seq<char>)
    ensures
        has_nvidia_line(text::lines_of(a + "\n"@ + b)) == (has_nvidia_line(text::lines_of(a))
            || has_nvidia_line(text::lines_of(b))),
        !has_nvidia_line(text::lines_of(""@)),
{
    reveal_strlit("\n");
    reveal_strlit("");
    assert("\n"@ =~= seq!['\n']);
    assert(""@ =~= Seq::<char>::empty());
    lemma_lines_joined(a, b);
}

proof fn lemma_first_line(line: Seq<char>, rest: Seq<Seq<char>>)
    ensures
        has_nvidia_line(seq![line] + rest) == (is_nvidia_display(line) || has_nvidia_line(rest)),
{
    let all = seq![line] + rest;
    if is_nvidia_display(line) {
        assert(is_nvidia_display(all[0]));
    } else if has_nvidia_line(rest) {
        let i = choose|i: int| 0 <= i < rest.len() && is_nvidia_display(#[trigger] rest[i]);
        assert(is_nvidia_display(all[i + 1]));
    } else if has_nvidia_line(all) {
        let i = choose|i: int| 0 <= i < all.len() && is_nvidia_display(#[trigger] all[i]);
        assert(all[i] == rest[i - 1]);
    }
}

proof fn lemma_carriage_return(line: Seq<char>)
    ensures
        is_nvidia_display(text::without_cr(line)) == is_nvidia_display(line),
{
    if line.len() > 0 && line.last() == '\r' {
        let bare = line.drop_last();
        assert(bare.push('\r') =~= line);
        text::lemma_pieces_push(bare, '\r', '"');
        let p = text::pieces(bare, '"');
        if p.len() >= 5 {
            assert(text::pieces(line, '"')[1] == p[1]);
            assert(text::pieces(line, '"')[3] == p[3]);
        }
    }
}

proof fn lemma_lines_joined(a: Seq<char>, b: Seq<char>)
    ensures
        has_nvidia_line(text::lines_of(a + seq!['\n'] + b)) == (has_nvidia_line(text::lines_of(a))
            || has_nvidia_line(text::lines_of(b))),
    decreases a.len(),
{
    let t = a + seq!['\n'] + b;
    let i = text::index_of(a, '\n');
    text::lemma_index_of_bounds(a, '\n');
    assert forall|j: int| 0 <= j < i implies t[j] != '\n' by {
        assert(t[j] == a[j]);
    }
    assert(t[i] == '\n');
    text::lemma_index_of(t, '\n', i);
    assert(t.take(i) =~= a.take(i));
    let line = text::without_cr(a.take(i));
    if i < a.len() {
        assert(t.skip(i + 1) =~= a.skip(i + 1) + seq!['\n'] + b);
        lemma_lines_joined(a.skip(i + 1), b);
        lemma_first_line(line, text::lines_of(a.skip(i + 1)));
        lemma_first_line(line, text::lines_of(t.skip(i + 1)));
    } else {
        assert(a.take(i) =~= a);
        assert(t.skip(i + 1) =~= b);
        lemma_first_line(line, text::lines_of(b));
        lemma_carriage_return(a);
        lemma_first_line(a, Seq::empty());
        assert(seq![a] + Seq::<Seq<char>>::empty() =~= seq![a]);
        if a.len() == 0 {
            assert(text::pieces(a, '"').len() == 1);
        }
    }
}

/// Whether the host has an NVIDIA display controller. `stdout` is what `lspci
/// -mm` printed, if it could be run and succeeded; otherwise the answer is no.
pub fn has_nvidia_gpu(stdout: Option<&str>) -> (r: bool)
    ensures
        r == match stdout {
            Some(s) => has_nvidia_line(text::lines_of(s@)),
            None => false,
        },
{
    match stdout {
        Some(s) => parse_lspci_mm_for_nvidia(s),
        None => false,
    }
}

/// The command that lists the PCI devices, program first.
pub fn probe_command(flatpak: bool) -> (r: Vec<String>)
    ensures
        r.deep_view() == if flatpak {
            seq!["flatpak-spawn"@, "--host"@, "lspci"@, "-mm"@]
        } else {
            seq!["lspci"@, "-mm"@]
        },
{
    let mut argv: Vec<String> = Vec::new();
    if flatpak {
        argv.push("flatpak-spawn".to_string());
        argv.push("--host".to_string());
    }
    argv.push("lspci".to_string());
    argv.push("-mm".to_string());
    assert(argv.deep_view() =~= if flatpak {
        seq!["flatpak-spawn"@, "--host"@, "lspci"@, "-mm"@]
    } else {
        seq!["lspci"@, "-mm"@]
    });
    argv
}

/// A line of the probe counts exactly where its class is that of a display controller and
/// its vendor is NVIDIA, whatever letters are large; what stands in front of the class
/// or behind the vendor does not count.
pub proof fn law_vendor_field_decides(
    slot: Seq<char>,
    class: Seq<char>,
    between: Seq<char>,
    vendor: Seq<char>,
    rest: Seq<Seq<char>>,
)
    requires
        !slot.contains('"'),
        !class.contains('"'),
        !between.contains('"'),
        !vendor.contains('"'),
        rest.len() > 0,
        forall|i: int| 0 <= i < rest.len() ==> !(#[trigger] rest[i]).contains('"'),
    ensures
        is_nvidia_display(
            text::joined(seq![slot, class, between, vendor] + rest, seq!['"']),
        ) <==> (
        text::small_letters(vendor) == "nvidia corporation"@ && (text::holds(
            text::small_letters(class),
            "vga compatible controller"@,
        ) || text::holds(text::small_letters(class), "3d controller"@) || text::holds(
            text::small_letters(class),
            "display controller"@,
        ))),
{
    let parts = seq![slot, class, between, vendor] + rest;
    assert forall|i: int| 0 <= i < parts.len() implies !(#[trigger] parts[i]).contains('"') by {
        if i >= 4 {
            assert(parts[i] == rest[i - 4]);
        }
    }
    text::law_joined_pieces_come_apart(parts, '"');
}

} // verus!
