//! The monitor whose resolution the OBS canvas is to match.
use vstd::prelude::*;
use vstd::string::*;

use crate::search::{first, first_from, lemma_first_from};
use crate::text::{eq_ignore_ascii_case, same, same_ignoring_ascii_case};

verus! {

/// A display, as KScreen describes it.
#[derive(Debug)]
pub struct Output {
    /// The connector.
    pub name: String,
    pub enabled: bool,
    pub connected: bool,
    /// 1 is the primary display. Older versions of KScreen do not tell.
    pub priority: Option<i64>,
    pub current_mode_id: String,
    pub modes: Vec<Mode>,
}

/// A mode of a display.
#[derive(Debug)]
pub struct Mode {
    pub id: String,
    pub size: Size,
}

/// A size in physical pixels.
#[derive(Debug, Clone, Copy, PartialEq, Eq, Structural)]
pub struct Size {
    pub width: u32,
    pub height: u32,
}

/// Whether a display shows anything.
pub open spec fn usable(o: Output) -> bool {
    o.enabled && o.connected
}

/// Whether a display shows something and is the one of that name.
pub open spec fn usable_and_named(o: Output, name: Seq<char>) -> bool {
    usable(o) && same_ignoring_ascii_case(o.name@, name)
}

/// Whether a display shows something and is the primary one.
pub open spec fn usable_and_primary(o: Output) -> bool {
    usable(o) && o.priority == Some(1i64)
}

/// The message for a display that was asked for by name and is not there.
pub open spec fn unknown_display(name: Seq<char>) -> Seq<char> {
    "capture_display \""@ + name + "\" not found among enabled, connected displays"@
}

/// The index of the display to match. A display that was asked for by name
/// has to be there. Without a name the only usable display is taken, and among
/// several the primary one.
pub open spec fn selected(outputs: Seq<Output>, target: Option<Seq<char>>) -> Result<
    int,
    Seq<char>,
> {
    match target {
        Some(name) => match first(outputs, |o: Output| usable_and_named(o, name)) {
            Some(i) => Ok(i),
            None => Err(unknown_display(name)),
        },
        None => match first(outputs, |o: Output| usable(o)) {
            None => Err("no enabled, connected display found"@),
            Some(i) => if first_from(outputs, |o: Output| usable(o), i + 1) is None {
                Ok(i)
            } else {
                match first(outputs, |o: Output| usable_and_primary(o)) {
                    Some(j) => Ok(j),
                    None => Err(
                        "multiple displays connected and no primary found; set [obs] capture_display to choose one"@,
                    ),
                }
            },
        },
    }
}

/// The resolution of a display in its current mode: in physical pixels, which
/// is what OBS captures, whatever the scaling of the desktop.
pub open spec fn current_size(o: Output) -> Result<(u32, u32), Seq<char>> {
    match first(o.modes@, |m: Mode| m.id@ == o.current_mode_id@) {
        Some(i) => Ok((o.modes@[i].size.width, o.modes@[i].size.height)),
        None => Err(
            "display \""@ + o.name@ + "\" current mode "@ + o.current_mode_id@
                + " not found in its mode list"@,
        ),
    }
}

/// The resolution of the display to match.
pub open spec fn size_to_match(outputs: Seq<Output>, target: Option<Seq<char>>) -> Result<
    (u32, u32),
    Seq<char>,
> {
    match selected(outputs, target) {
        Ok(i) => current_size(outputs[i]),
        Err(m) => Err(m),
    }
}

fn next_usable(outputs: &[Output], from: usize) -> (r: Option<usize>)
    ensures
        match r {
            Some(i) => first_from(outputs@, |o: Output| usable(o), from as int) == Some(i as int)
                && i < outputs@.len(),
            None => first_from(outputs@, |o: Output| usable(o), from as int) is None,
        },
{
    let mut i = from;
    while i < outputs.len()
        invariant
            first_from(outputs@, |o: Output| usable(o), from as int) == first_from(
                outputs@,
                |o: Output| usable(o),
                i as int,
            ),
        decreases outputs@.len() - i,
    {
        if outputs[i].enabled && outputs[i].connected {
            return Some(i);
        }
        i = i + 1;
    }
    None
}

fn named_display(outputs: &[Output], name: &str) -> (r: Option<usize>)
    ensures
        match r {
            Some(i) => first(outputs@, |o: Output| usable_and_named(o, name@)) == Some(i as int)
                && i < outputs@.len(),
            None => first(outputs@, |o: Output| usable_and_named(o, name@)) is None,
        },
{
    let mut i: usize = 0;
    while i < outputs.len()
        invariant
            first(outputs@, |o: Output| usable_and_named(o, name@)) == first_from(
                outputs@,
                |o: Output| usable_and_named(o, name@),
                i as int,
            ),
        decreases outputs@.len() - i,
    {
        if outputs[i].enabled && outputs[i].connected && eq_ignore_ascii_case(
            outputs[i].name.as_str(),
            name,
        ) {
            return Some(i);
        }
        i = i + 1;
    }
    None
}

fn primary_display(outputs: &[Output]) -> (r: Option<usize>)
    ensures
        match r {
            Some(i) => first(outputs@, |o: Output| usable_and_primary(o)) == Some(i as int) && i
                < outputs@.len(),
            None => first(outputs@, |o: Output| usable_and_primary(o)) is None,
        },
{
    let mut i: usize = 0;
    while i < outputs.len()
        invariant
            first(outputs@, |o: Output| usable_and_primary(o)) == first_from(
                outputs@,
                |o: Output| usable_and_primary(o),
                i as int,
            ),
        decreases outputs@.len() - i,
    {
        let is_primary = match outputs[i].priority {
            Some(p) => p == 1,
            None => false,
        };
        if outputs[i].enabled && outputs[i].connected && is_primary {
            return Some(i);
        }
        i = i + 1;
    }
    None
}

/// The display to match: the one of the given name, or else the only usable
/// one, or else the primary one.
pub fn select_output<'a>(outputs: &'a [Output], target: Option<&str>) -> (r: Result<
    &'a Output,
    String,
>)
    ensures
        ({
            let name = match target {
                Some(n) => Some(n@),
                None => None,
            };
            match r {
                Ok(o) => match selected(outputs@, name) {
                    Ok(i) => 0 <= i < outputs@.len() && *o == outputs@[i],
                    Err(_) => false,
                },
                Err(m) => selected(outputs@, name) == Err::<int, Seq<char>>(m@),
            }
        }),
{
    let count = outputs.len();
    match target {
        Some(name) => match named_display(outputs, name) {
            Some(i) => Ok(&outputs[i]),
            None => {
                let mut m = "capture_display \"".to_owned();
                m.append(name);
                m.append("\" not found among enabled, connected displays");
                Err(m)
            },
        },
        None => match next_usable(outputs, 0) {
            None => Err("no enabled, connected display found".to_owned()),
            Some(i) => if i + 1 == count || next_usable(outputs, i + 1).is_none() {
                Ok(&outputs[i])
            } else {
                match primary_display(outputs) {
                    Some(j) => Ok(&outputs[j]),
                    None => Err(
                        "multiple displays connected and no primary found; set [obs] capture_display to choose one".to_owned(),
                    ),
                }
            },
        },
    }
}

/// The resolution of the current mode of a display, in physical pixels.
pub fn resolution_of(output: &Output) -> (r: Result<(u32, u32), String>)
    ensures
        match r {
            Ok(size) => current_size(*output) == Ok::<(u32, u32), Seq<char>>(size),
            Err(m) => current_size(*output) == Err::<(u32, u32), Seq<char>>(m@),
        },
{
    let mut i: usize = 0;
    while i < output.modes.len()
        invariant
            first(output.modes@, |m: Mode| m.id@ == output.current_mode_id@) == first_from(
                output.modes@,
                |m: Mode| m.id@ == output.current_mode_id@,
                i as int,
            ),
        decreases output.modes@.len() - i,
    {
        let mode = &output.modes[i];
        if same(mode.id.as_str(), output.current_mode_id.as_str()) {
            return Ok((mode.size.width, mode.size.height));
        }
        i = i + 1;
    }
    let mut m = "display \"".to_owned();
    m.append(output.name.as_str());
    m.append("\" current mode ");
    m.append(output.current_mode_id.as_str());
    m.append(" not found in its mode list");
    Err(m)
}

/// The resolution of the display to match.
pub fn current_display_resolution(outputs: &[Output], target: Option<&str>) -> (r: Result<
    (u32, u32),
    String,
>)
    ensures
        ({
            let name = match target {
                Some(n) => Some(n@),
                None => None,
            };
            match r {
                Ok(size) => size_to_match(outputs@, name) == Ok::<(u32, u32), Seq<char>>(size),
                Err(m) => size_to_match(outputs@, name) == Err::<(u32, u32), Seq<char>>(m@),
            }
        }),
{
    match select_output(outputs, target) {
        Ok(output) => resolution_of(output),
        Err(m) => Err(m),
    }
}

/// The display that is matched is always a usable one, and where it was asked
/// for by name, it has that name: there is no falling back to another screen.
pub proof fn law_only_the_right_display_is_matched(outputs: Seq<Output>, target: Option<Seq<char>>)
    ensures
        match selected(outputs, target) {
            Ok(i) => {
                &&& 0 <= i < outputs.len()
                &&& usable(outputs[i])
                &&& target matches Some(name) ==> same_ignoring_ascii_case(outputs[i].name@, name)
            },
            Err(_) => match target {
                Some(name) => forall|j: int|
                    0 <= j < outputs.len() ==> !usable_and_named(#[trigger] outputs[j], name),
                None => forall|j: int|
                    0 <= j < outputs.len() ==> !usable_and_primary(#[trigger] outputs[j]),
            },
        },
{
    match target {
        Some(name) => {
            let p = |o: Output| usable_and_named(o, name);
            lemma_first_from(outputs, p, 0);
            assert forall|j: int| 0 <= j < outputs.len() && !p(outputs[j]) implies !usable_and_named(
                #[trigger] outputs[j],
                name,
            ) by {}
        },
        None => {
            let p = |o: Output| usable_and_primary(o);
            let q = |o: Output| usable(o);
            lemma_first_from(outputs, p, 0);
            lemma_first_from(outputs, q, 0);
            assert forall|j: int| 0 <= j < outputs.len() && !p(outputs[j]) implies !usable_and_primary(
                #[trigger] outputs[j],
            ) by {}
            assert forall|j: int| 0 <= j < outputs.len() && !q(outputs[j]) implies !usable(
                #[trigger] outputs[j],
            ) by {}
        },
    }
}

/// Without a name, a display that is the only usable one is matched, primary
/// or not.
pub proof fn law_sole_display_needs_no_primary(outputs: Seq<Output>, i: int)
    requires
        0 <= i < outputs.len(),
        usable(outputs[i]),
        forall|j: int| 0 <= j < outputs.len() && j != i ==> !usable(#[trigger] outputs[j]),
    ensures
        selected(outputs, None) == Ok::<int, Seq<char>>(i),
{
    let q = |o: Output| usable(o);
    lemma_first_from(outputs, q, 0);
    assert(q(outputs[i]));
    lemma_first_from(outputs, q, i + 1);
}

/// A display counts where it is enabled and connected. Asked for by name, it is
/// the first that counts and has that name, in whatever case; an error names
/// what was asked for, where there is none. Without a name it is the only one
/// that counts, or, among several, the first of priority 1; where none counts,
/// or several do and none has that priority, there is an error that says so.
pub proof fn law_displays_are_chosen_by_name_or_rank(outputs: Seq<Output>, target: Option<Seq<char>>)
    ensures
        target matches Some(name) ==> match selected(outputs, target) {
            Ok(i) => {
                &&& 0 <= i < outputs.len()
                &&& outputs[i].enabled && outputs[i].connected
                &&& same_ignoring_ascii_case(outputs[i].name@, name)
                &&& forall|j: int|
                    0 <= j < i ==> !(#[trigger] outputs[j]).enabled || !outputs[j].connected
                        || !same_ignoring_ascii_case(outputs[j].name@, name)
            },
            Err(m) => {
                &&& forall|j: int|
                    0 <= j < outputs.len() ==> !(#[trigger] outputs[j]).enabled
                        || !outputs[j].connected || !same_ignoring_ascii_case(
                        outputs[j].name@,
                        name,
                    )
                &&& m == "capture_display \""@ + name
                    + "\" not found among enabled, connected displays"@
            },
        },
        target is None ==> match selected(outputs, target) {
            Ok(i) => {
                &&& 0 <= i < outputs.len()
                &&& outputs[i].enabled && outputs[i].connected
                &&& (exists|j: int|
                    0 <= j < outputs.len() && j != i && (#[trigger] outputs[j]).enabled
                        && outputs[j].connected) ==> {
                    &&& outputs[i].priority == Some(1i64)
                    &&& forall|j: int|
                        0 <= j < i ==> !(#[trigger] outputs[j]).enabled || !outputs[j].connected
                            || outputs[j].priority != Some(1i64)
                }
            },
            Err(m) => {
                ||| {
                    &&& m == "no enabled, connected display found"@
                    &&& forall|j: int|
                        0 <= j < outputs.len() ==> !(#[trigger] outputs[j]).enabled
                            || !outputs[j].connected
                }
                ||| {
                    &&& m
                        == "multiple displays connected and no primary found; set [obs] capture_display to choose one"@
                    &&& exists|i: int, j: int|
                        0 <= i < j < outputs.len() && (#[trigger] outputs[i]).enabled
                            && outputs[i].connected && (#[trigger] outputs[j]).enabled
                            && outputs[j].connected
                    &&& forall|j: int|
                        0 <= j < outputs.len() ==> !(#[trigger] outputs[j]).enabled
                            || !outputs[j].connected || outputs[j].priority != Some(1i64)
                }
            },
        },
{
    match target {
        Some(name) => {
            let p = |o: Output| usable_and_named(o, name);
            lemma_first_from(outputs, p, 0);
            assert forall|j: int| 0 <= j < outputs.len() && !p(#[trigger] outputs[j]) implies
                !outputs[j].enabled || !outputs[j].connected || !same_ignoring_ascii_case(
                outputs[j].name@,
                name,
            ) by {}
        },
        None => {
            let p = |o: Output| usable_and_primary(o);
            let q = |o: Output| usable(o);
            lemma_first_from(outputs, p, 0);
            lemma_first_from(outputs, q, 0);
            if let Some(i) = first(outputs, q) {
                lemma_first_from(outputs, q, i + 1);
                if let Some(j) = first_from(outputs, q, i + 1) {
                    assert(q(outputs[i]) && q(outputs[j]));
                }
            }
            assert forall|j: int| 0 <= j < outputs.len() && !p(#[trigger] outputs[j]) implies
                !outputs[j].enabled || !outputs[j].connected || outputs[j].priority != Some(1i64) by {}
            assert forall|j: int| 0 <= j < outputs.len() && !q(#[trigger] outputs[j]) implies
                !outputs[j].enabled || !outputs[j].connected by {}
        },
    }
}

/// The resolution is the width and the height of the first mode whose id is
/// that of the current mode, on the display that is matched; where the display
/// has no such mode, or there is no display to match, the error says so.
pub proof fn law_resolution_is_that_of_the_current_mode(
    o: Output,
    outputs: Seq<Output>,
    target: Option<Seq<char>>,
)
    ensures
        match current_size(o) {
            Ok(size) => exists|i: int|
                {
                    &&& 0 <= i < o.modes@.len()
                    &&& (#[trigger] o.modes@[i]).id@ == o.current_mode_id@
                    &&& size.0 == o.modes@[i].size.width && size.1 == o.modes@[i].size.height
                    &&& forall|j: int|
                        0 <= j < i ==> (#[trigger] o.modes@[j]).id@ != o.current_mode_id@
                },
            Err(m) => {
                &&& forall|j: int|
                    0 <= j < o.modes@.len() ==> (#[trigger] o.modes@[j]).id@ != o.current_mode_id@
                &&& m == "display \""@ + o.name@ + "\" current mode "@ + o.current_mode_id@
                    + " not found in its mode list"@
            },
        },
        match selected(outputs, target) {
            Ok(i) => size_to_match(outputs, target) == current_size(outputs[i]),
            Err(m) => size_to_match(outputs, target) == Err::<(u32, u32), Seq<char>>(m),
        },
{
    let p = |m: Mode| m.id@ == o.current_mode_id@;
    lemma_first_from(o.modes@, p, 0);
    if let Some(i) = first(o.modes@, p) {
        assert(p(o.modes@[i]));
        assert forall|j: int| 0 <= j < i implies (#[trigger] o.modes@[j]).id@
            != o.current_mode_id@ by {
            assert(!p(o.modes@[j]));
        }
    } else {
        assert forall|j: int| 0 <= j < o.modes@.len() implies (#[trigger] o.modes@[j]).id@
            != o.current_mode_id@ by {
            assert(!p(o.modes@[j]));
        }
    }
}

} // verus!
