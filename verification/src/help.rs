//! The key hints shown in the footer of each screen.
use vstd::prelude::*;
use crate::app::CurrentScreen;

verus! {

/// One hint: the keys and what they do.
pub struct Keybind {
    pub keys: &'static str,
    pub desc: &'static str,
}

/// The texts of a list of hints, as (keys, description) pairs.
pub open spec fn hint_texts(h: Seq<Keybind>) -> Seq<(Seq<char>, Seq<char>)> {
    h.map_values(|k: Keybind| (k.keys@, k.desc@))
}

/// The hints of each screen, in the order shown.
pub open spec fn screen_hints(screen: CurrentScreen) -> Seq<(Seq<char>, Seq<char>)> {
    match screen {
        CurrentScreen::Main => seq![
            ("↑/↓ or j/k"@, "Navigate"@),
            ("a/Enter"@, "Activate"@),
            ("d"@, "Delete"@),
            ("q"@, "Quit"@),
        ],
        CurrentScreen::ConfirmDelete => seq![("y"@, "Confirm"@), ("n/Esc"@, "Cancel"@)],
    }
}

/// The hints shown in the footer of `screen`.
pub fn hints(screen: &CurrentScreen) -> (h: &'static [Keybind])
    ensures
        hint_texts(h@) == screen_hints(*screen),
{
    let h: &'static [Keybind] = match screen {
        CurrentScreen::Main => &[
            Keybind { keys: "↑/↓ or j/k", desc: "Navigate" },
            Keybind { keys: "a/Enter", desc: "Activate" },
            Keybind { keys: "d", desc: "Delete" },
            Keybind { keys: "q", desc: "Quit" },
        ],
        CurrentScreen::ConfirmDelete => &[
            Keybind { keys: "y", desc: "Confirm" },
            Keybind { keys: "n/Esc", desc: "Cancel" },
        ],
    };
    assert(hint_texts(h@) =~= screen_hints(*screen));
    h
}

/// The text put between two hints in the footer.
pub const HINT_SEPARATOR: &'static str = "  ·  ";

/// One piece of the footer line.
#[derive(Debug, Clone, Copy)]
pub enum FooterPart {
    /// `HINT_SEPARATOR`, between two hints.
    Separator,
    /// The keys of a hint.
    Keys(&'static str),
    /// The space between a hint's keys and its description.
    Space,
    /// What the keys do.
    Desc(&'static str),
}

/// The footer line for a list of hints: each hint as its keys, a space and
/// its description, with a separator between hints.
pub open spec fn footer_of(h: Seq<Keybind>) -> Seq<FooterPart>
    decreases h.len(),
{
    if h.len() == 0 {
        Seq::empty()
    } else {
        let rest = footer_of(h.drop_last());
        let before = if h.len() > 1 {
            rest.push(FooterPart::Separator)
        } else {
            rest
        };
        before + seq![FooterPart::Keys(h.last().keys), FooterPart::Space, FooterPart::Desc(h.last().desc)]
    }
}

/// The footer line for a list of hints.
pub fn footer_parts(hints: &[Keybind]) -> (parts: Vec<FooterPart>)
    ensures
        parts@ == footer_of(hints@),
{
    let mut parts: Vec<FooterPart> = Vec::new();
    let mut i: usize = 0;
    assert(hints@.take(0) =~= Seq::<Keybind>::empty());
    while i < hints.len()
        invariant
            i <= hints@.len(),
            parts@ == footer_of(hints@.take(i as int)),
        decreases hints@.len() - i,
    {
        let ghost before = parts@;
        assert(hints@.take(i + 1).drop_last() =~= hints@.take(i as int));
        assert(hints@.take(i + 1).last() == hints@[i as int]);
        if i > 0 {
            parts.push(FooterPart::Separator);
        }
        parts.push(FooterPart::Keys(hints[i].keys));
        parts.push(FooterPart::Space);
        parts.push(FooterPart::Desc(hints[i].desc));
        proof {
            let b = if i > 0 {
                before.push(FooterPart::Separator)
            } else {
                before
            };
            assert(parts@ =~= b + seq![
                FooterPart::Keys(hints@[i as int].keys),
                FooterPart::Space,
                FooterPart::Desc(hints@[i as int].desc),
            ]);
        }
        i = i + 1;
    }
    assert(hints@.take(i as int) =~= hints@);
    parts
}

} // verus!
