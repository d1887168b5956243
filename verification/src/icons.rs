//! The icon of a popup: from the configuration, from the desktop files, or
//! from the icon theme.
use vstd::prelude::*;
use vstd::string::*;
use vstd::utf8::is_ascii_chars;

use crate::config::{joined, opt_text, texts};
use crate::osd::mute_icon;
use crate::text::{
    after_prefix, ascii_lowered, chars_of, contains, found_in, is_substring,
    law_prefix_and_rest_are_the_text, law_substrings_are_cut_out, lowercase, same, strip_prefix,
    to_lowercase, trim, trimmed,
};

verus! {

// ---------------------------------------------------------------------------
// Desktop files
// ---------------------------------------------------------------------------

/// The lines of a text. A line feed at the end leaves an empty line behind it.
pub open spec fn lines_of(s: Seq<char>) -> Seq<Seq<char>>
    decreases s.len(),
{
    if s.len() == 0 {
        seq![Seq::empty()]
    } else {
        let before = lines_of(s.drop_last());
        if s.last() == '\n' {
            before.push(Seq::empty())
        } else {
            before.drop_last().push(before.last().push(s.last()))
        }
    }
}

/// Whether a line is the title of a section.
pub open spec fn is_title(line: Seq<char>) -> bool {
    line.len() > 0 && line[0] == '[' && line.last() == ']'
}

/// Whether the line at `i` belongs to the section `[Desktop Entry]`: whether
/// the last title before it is that one.
pub open spec fn in_desktop_entry(lines: Seq<Seq<char>>, i: int) -> bool
    decreases i,
{
    if i <= 0 {
        false
    } else if is_title(trimmed(lines[i - 1])) {
        trimmed(lines[i - 1]) == "[Desktop Entry]"@
    } else {
        in_desktop_entry(lines, i - 1)
    }
}

/// The icon that the line at `i` names.
pub open spec fn icon_at(lines: Seq<Seq<char>>, i: int) -> Option<Seq<char>> {
    if is_title(trimmed(lines[i])) || !in_desktop_entry(lines, i) {
        None
    } else {
        match after_prefix(trimmed(lines[i]), "Icon="@) {
            Some(icon) => if trimmed(icon).len() > 0 {
                Some(trimmed(icon))
            } else {
                None
            },
            None => None,
        }
    }
}

/// The first icon that is named at `i` or below.
pub open spec fn icon_from(lines: Seq<Seq<char>>, i: int) -> Option<Seq<char>>
    decreases lines.len() - i,
{
    if i >= lines.len() {
        None
    } else {
        match icon_at(lines, i) {
            Some(icon) => Some(icon),
            None => icon_from(lines, i + 1),
        }
    }
}

/// The icon of a desktop file.
pub open spec fn icon_in(content: Seq<char>) -> Option<Seq<char>> {
    icon_from(lines_of(content), 0)
}

/// The contents of a row of lines.
pub open spec fn slices(v: Seq<&str>) -> Seq<Seq<char>> {
    Seq::new(v.len(), |i: int| v[i]@)
}

fn lines(content: &str) -> (r: Vec<&str>)
    ensures
        slices(r@) == lines_of(content@),
{
    let v = chars_of(content);
    let mut out: Vec<&str> = Vec::new();
    let mut start: usize = 0;
    let mut i: usize = 0;
    let count = v.len();
    assert(content@.take(0) =~= Seq::<char>::empty());
    assert(slices(out@).push(content@.subrange(0, 0)) =~= seq![Seq::<char>::empty()]);
    while i < count
        invariant
            v@ == content@,
            count == v@.len(),
            start <= i <= count,
            slices(out@).push(content@.subrange(start as int, i as int)) == lines_of(
                content@.take(i as int),
            ),
        decreases count - i,
    {
        let ghost s = content@.take(i + 1);
        let ghost done = out@;
        let ghost from = start;
        assert(s.drop_last() =~= content@.take(i as int));
        assert(s.last() == content@[i as int]);
        if v[i] == '\n' {
            out.push(content.substring_char(start, i));
            start = i + 1;
            assert(slices(out@) =~= slices(done).push(content@.subrange(from as int, i as int)));
            assert(content@.subrange(start as int, i + 1) =~= Seq::<char>::empty());
        } else {
            assert(content@.subrange(start as int, i + 1) =~= content@.subrange(
                start as int,
                i as int,
            ).push(s.last()));
            let ghost whole = slices(out@).push(content@.subrange(start as int, i as int));
            assert(whole.drop_last() =~= slices(out@));
        }
        i = i + 1;
    }
    assert(content@.take(count as int) =~= content@);
    let ghost done = out@;
    out.push(content.substring_char(start, count));
    assert(slices(out@) =~= slices(done).push(content@.subrange(start as int, count as int)));
    out
}

fn title(line: &str) -> (r: bool)
    ensures
        r == is_title(line@),
{
    let v = chars_of(line);
    v.len() > 0 && v[0] == '[' && v[v.len() - 1] == ']'
}

/// The icon that the `[Desktop Entry]` section of a desktop file names. The
/// icons of other sections belong to entries of context menus.
pub fn parse_desktop_entry_icon(content: &str) -> (r: Option<String>)
    ensures
        opt_text(r) == icon_in(content@),
{
    let v = lines(content);
    let ghost ls = slices(v@);
    let mut in_entry = false;
    let mut i: usize = 0;
    while i < v.len()
        invariant
            i <= v@.len(),
            ls == slices(v@),
            ls == lines_of(content@),
            in_entry == in_desktop_entry(ls, i as int),
            icon_from(ls, 0) == icon_from(ls, i as int),
        decreases v@.len() - i,
    {
        assert(ls[i as int] == v@[i as int]@);
        let line = trim(v[i]);
        if title(line) {
            in_entry = same(line, "[Desktop Entry]");
        } else if in_entry {
            if let Some(icon) = strip_prefix(line, "Icon=") {
                let icon = trim(icon);
                if icon.unicode_len() > 0 {
                    return Some(icon.to_owned());
                }
            }
        }
        i = i + 1;
    }
    None
}

/// A file of a directory of desktop files. Where the stem of its name is not
/// valid Unicode, it is empty; where the extension is not, it is missing. The
/// content is missing where the file cannot be read.
#[derive(Debug)]
pub struct DesktopFile {
    pub stem: String,
    pub extension: Option<String>,
    pub content: Option<String>,
}

/// Whether the name of a file makes it the desktop file of an app.
pub open spec fn names_app(stem: Seq<char>, extension: Option<Seq<char>>, app: Seq<char>) -> bool {
    extension == Some("desktop"@) && is_substring(lowercase(app), lowercase(stem))
}

/// The icon that a file gives an app.
pub open spec fn icon_of_file(f: DesktopFile, app: Seq<char>) -> Option<Seq<char>> {
    if names_app(f.stem@, opt_text(f.extension), app) {
        match f.content {
            Some(content) => icon_in(content@),
            None => None,
        }
    } else {
        None
    }
}

/// The first icon that files from `i` on give an app.
pub open spec fn icon_of_files(files: Seq<DesktopFile>, app: Seq<char>, i: int) -> Option<
    Seq<char>,
>
    decreases files.len() - i,
{
    if i >= files.len() {
        None
    } else {
        match icon_of_file(files[i], app) {
            Some(icon) => Some(icon),
            None => icon_of_files(files, app, i + 1),
        }
    }
}

/// Whether the name of a file makes it the desktop file of an app, so that
/// its content counts.
pub fn desktop_file_matches(stem: &str, extension: Option<&str>, app_name: &str) -> (r: bool)
    ensures
        r == names_app(
            stem@,
            match extension {
                Some(e) => Some(e@),
                None => None,
            },
            app_name@,
        ),
        is_ascii_chars(stem@) && is_ascii_chars(app_name@) ==> r == (match extension {
            Some(e) => e@ == "desktop"@,
            None => false,
        } && is_substring(ascii_lowered(app_name@), ascii_lowered(stem@))),
{
    let is_desktop = match extension {
        Some(e) => same(e, "desktop"),
        None => false,
    };
    is_desktop && contains(to_lowercase(stem).as_str(), to_lowercase(app_name).as_str())
}

/// The icon that the files of the desktop directories, in the order in which
/// they are walked, give an app.
pub fn find_icon_in_dirs(app_name: &str, files: &[DesktopFile]) -> (r: Option<String>)
    ensures
        opt_text(r) == icon_of_files(files@, app_name@, 0),
{
    let mut i: usize = 0;
    while i < files.len()
        invariant
            i <= files@.len(),
            icon_of_files(files@, app_name@, 0) == icon_of_files(files@, app_name@, i as int),
        decreases files@.len() - i,
    {
        let file = &files[i];
        let extension = match &file.extension {
            Some(e) => Some(e.as_str()),
            None => None,
        };
        if desktop_file_matches(file.stem.as_str(), extension, app_name) {
            if let Some(content) = &file.content {
                let icon = parse_desktop_entry_icon(content.as_str());
                if icon.is_some() {
                    return icon;
                }
            }
        }
        i = i + 1;
    }
    None
}

// ---------------------------------------------------------------------------
// The icon for a row of apps
// ---------------------------------------------------------------------------

/// What the search for an icon waits for.
#[derive(Debug, Clone, Copy, PartialEq, Eq, Structural)]
pub enum IconStage {
    /// The icon in the desktop files of the app at this index.
    Desktop(usize),
    /// Whether the theme has an icon of the name of the first app.
    Theme,
    Found,
    Missing,
}

/// What the search for an icon asks for.
#[derive(Debug)]
pub enum IconQuestion {
    /// The icon in the desktop files of an app.
    DesktopIcon(String),
    /// Whether the icon theme has an icon.
    ThemeHas(String),
    /// Nothing: this is the icon, if any.
    Answer(Option<String>),
}

/// The content of an [`IconQuestion`].
pub enum IconQuestionView {
    DesktopIcon(Seq<char>),
    ThemeHas(Seq<char>),
    Answer(Option<Seq<char>>),
}

impl View for IconQuestion {
    type V = IconQuestionView;

    open spec fn view(&self) -> IconQuestionView {
        match *self {
            IconQuestion::DesktopIcon(app) => IconQuestionView::DesktopIcon(app@),
            IconQuestion::ThemeHas(name) => IconQuestionView::ThemeHas(name@),
            IconQuestion::Answer(icon) => IconQuestionView::Answer(opt_text(icon)),
        }
    }
}

/// The content of an [`IconSearch`].
#[verifier::ext_equal]
pub struct IconSearchView {
    pub names: Seq<Seq<char>>,
    pub stage: IconStage,
    /// The icon that was found.
    pub icon: Seq<char>,
}

impl IconSearchView {
    /// The stage in which the desktop files of the apps from `i` on are left.
    pub open spec fn from_app(names: Seq<Seq<char>>, i: int) -> IconStage {
        if i < names.len() {
            IconStage::Desktop(i as usize)
        } else if names.len() > 0 {
            IconStage::Theme
        } else {
            IconStage::Missing
        }
    }

    /// A search that has not asked anything yet.
    pub open spec fn begin(config_icon: Option<Seq<char>>, names: Seq<Seq<char>>) -> IconSearchView {
        match config_icon {
            Some(icon) => IconSearchView { names, stage: IconStage::Found, icon },
            None => IconSearchView {
                names,
                stage: IconSearchView::from_app(names, 0),
                icon: Seq::empty(),
            },
        }
    }

    /// What the search asks for.
    pub open spec fn question(self) -> IconQuestionView {
        match self.stage {
            IconStage::Desktop(i) => IconQuestionView::DesktopIcon(self.names[i as int]),
            IconStage::Theme => IconQuestionView::ThemeHas(lowercase(self.names[0])),
            IconStage::Found => IconQuestionView::Answer(Some(self.icon)),
            IconStage::Missing => IconQuestionView::Answer(None),
        }
    }

    /// The search after the desktop files of an app.
    pub open spec fn after_desktop(self, icon: Option<Seq<char>>) -> IconSearchView {
        match self.stage {
            IconStage::Desktop(i) => match icon {
                Some(icon) => IconSearchView { stage: IconStage::Found, icon, ..self },
                None => IconSearchView {
                    stage: IconSearchView::from_app(self.names, i + 1),
                    ..self
                },
            },
            _ => self,
        }
    }

    /// The search after the theme.
    pub open spec fn after_theme(self, has: bool) -> IconSearchView {
        match self.stage {
            IconStage::Theme => if has {
                IconSearchView { stage: IconStage::Found, icon: lowercase(self.names[0]), ..self }
            } else {
                IconSearchView { stage: IconStage::Missing, ..self }
            },
            _ => self,
        }
    }
}

/// The search for the icon of a row of apps: the configured icon, or the first
/// that the desktop files give one of the apps, or the name of the first app
/// where the icon theme has it.
#[derive(Debug)]
pub struct IconSearch {
    names: Vec<String>,
    stage: IconStage,
    icon: String,
}

impl View for IconSearch {
    type V = IconSearchView;

    closed spec fn view(&self) -> IconSearchView {
        IconSearchView { names: texts(self.names@), stage: self.stage, icon: self.icon@ }
    }
}

impl IconSearch {
    #[verifier::type_invariant]
    spec fn well_formed(self) -> bool {
        match self.stage {
            IconStage::Desktop(i) => i < self.names@.len(),
            IconStage::Theme => self.names@.len() > 0,
            _ => true,
        }
    }

    fn stage_from(names: &Vec<String>, i: usize) -> (r: IconStage)
        ensures
            r == IconSearchView::from_app(texts(names@), i as int),
    {
        if i < names.len() {
            IconStage::Desktop(i)
        } else if names.len() > 0 {
            IconStage::Theme
        } else {
            IconStage::Missing
        }
    }

    /// Starts the search.
    pub fn find_app_icon(config_icon: Option<String>, app_names: Vec<String>) -> (r: IconSearch)
        ensures
            r@ == IconSearchView::begin(opt_text(config_icon), texts(app_names@)),
    {
        match config_icon {
            Some(icon) => IconSearch { names: app_names, stage: IconStage::Found, icon },
            None => {
                let stage = IconSearch::stage_from(&app_names, 0);
                let icon = String::new();
                assert(icon@ =~= Seq::<char>::empty());
                IconSearch { names: app_names, stage, icon }
            },
        }
    }

    /// What the search asks for.
    pub fn question(&self) -> (r: IconQuestion)
        ensures
            r@ == self@.question(),
    {
        proof {
            use_type_invariant(self);
        }
        match self.stage {
            IconStage::Desktop(i) => IconQuestion::DesktopIcon(self.names[i].clone()),
            IconStage::Theme => IconQuestion::ThemeHas(to_lowercase(self.names[0].as_str())),
            IconStage::Found => IconQuestion::Answer(Some(self.icon.clone())),
            IconStage::Missing => IconQuestion::Answer(None),
        }
    }

    /// Takes the icon that the desktop files give the app in question. Where
    /// no app is in question, nothing changes.
    pub fn desktop_icon(&mut self, icon: Option<String>)
        ensures
            final(self)@ == old(self)@.after_desktop(opt_text(icon)),
    {
        proof {
            use_type_invariant(&*self);
        }
        if let IconStage::Desktop(i) = self.stage {
            match icon {
                Some(icon) => {
                    self.stage = IconStage::Found;
                    self.icon = icon;
                },
                None => {
                    let count = self.names.len();
                    assert(i < count);
                    self.stage = IconSearch::stage_from(&self.names, i + 1);
                },
            }
        }
    }

    /// Takes whether the theme has the icon in question. Where none is in
    /// question, nothing changes.
    pub fn theme_has(&mut self, has: bool)
        ensures
            final(self)@ == old(self)@.after_theme(has),
    {
        proof {
            use_type_invariant(&*self);
        }
        if let IconStage::Theme = self.stage {
            if has {
                let candidate = to_lowercase(self.names[0].as_str());
                self.stage = IconStage::Found;
                self.icon = candidate;
            } else {
                self.stage = IconStage::Missing;
            }
        }
    }
}

/// The icon of a volume popup, given what the search has found.
pub open spec fn volume_popup_icon(found: Option<Seq<char>>) -> Seq<char> {
    match found {
        Some(icon) => icon,
        None => Seq::empty(),
    }
}

/// The icon of a mute popup, given what the search has found.
pub open spec fn mute_popup_icon(found: Option<Seq<char>>, muted: bool) -> Seq<char> {
    match found {
        Some(icon) => icon,
        None => mute_icon(muted),
    }
}

/// The icon of a volume popup. An empty name shows no icon: the icon of the
/// system volume would be misleading.
pub fn resolve(found: Option<String>) -> (r: String)
    ensures
        r@ == volume_popup_icon(opt_text(found)),
{
    match found {
        Some(icon) => icon,
        None => {
            let r = String::new();
            assert(r@ =~= Seq::<char>::empty());
            r
        },
    }
}

/// The icon of a mute popup.
pub fn resolve_mute(found: Option<String>, muted: bool) -> (r: String)
    ensures
        r@ == mute_popup_icon(opt_text(found), muted),
{
    match found {
        Some(icon) => icon,
        None => if muted {
            "audio-volume-muted".to_owned()
        } else {
            "audio-volume-high".to_owned()
        },
    }
}

// ---------------------------------------------------------------------------
// Laws
// ---------------------------------------------------------------------------

/// The first icon that the desktop files give one of the apps from `i` on.
pub open spec fn desktop_choice(
    names: Seq<Seq<char>>,
    desktop: spec_fn(Seq<char>) -> Option<Seq<char>>,
    i: int,
) -> Option<Seq<char>>
    decreases names.len() - i,
{
    if i >= names.len() {
        None
    } else {
        match desktop(names[i]) {
            Some(icon) => Some(icon),
            None => desktop_choice(names, desktop, i + 1),
        }
    }
}

/// The icon that a row of apps gets: from the configuration, else from the
/// desktop files, else from the theme.
pub open spec fn choice(
    config_icon: Option<Seq<char>>,
    names: Seq<Seq<char>>,
    desktop: spec_fn(Seq<char>) -> Option<Seq<char>>,
    theme: spec_fn(Seq<char>) -> bool,
) -> Option<Seq<char>> {
    match config_icon {
        Some(icon) => Some(icon),
        None => match desktop_choice(names, desktop, 0) {
            Some(icon) => Some(icon),
            None => if names.len() > 0 && theme(lowercase(names[0])) {
                Some(lowercase(names[0]))
            } else {
                None
            },
        },
    }
}

/// The search after `n` answers.
pub open spec fn asked(
    s: IconSearchView,
    desktop: spec_fn(Seq<char>) -> Option<Seq<char>>,
    theme: spec_fn(Seq<char>) -> bool,
    n: nat,
) -> IconSearchView
    decreases n,
{
    if n == 0 {
        s
    } else {
        match s.question() {
            IconQuestionView::DesktopIcon(app) => asked(
                s.after_desktop(desktop(app)),
                desktop,
                theme,
                (n - 1) as nat,
            ),
            IconQuestionView::ThemeHas(name) => asked(
                s.after_theme(theme(name)),
                desktop,
                theme,
                (n - 1) as nat,
            ),
            IconQuestionView::Answer(_) => s,
        }
    }
}

/// Whatever the desktop files and the theme hold, the search ends after one
/// question for each app and one more, and its answer keeps the order of
/// precedence: the configuration, the desktop files, the theme.
pub proof fn law_icon_search_keeps_precedence(
    config_icon: Option<Seq<char>>,
    names: Seq<Seq<char>>,
    desktop: spec_fn(Seq<char>) -> Option<Seq<char>>,
    theme: spec_fn(Seq<char>) -> bool,
)
    requires
        names.len() <= usize::MAX,
    ensures
        asked(
            IconSearchView::begin(config_icon, names),
            desktop,
            theme,
            names.len() + 1,
        ).question() == IconQuestionView::Answer(choice(config_icon, names, desktop, theme)),
{
    if config_icon is None {
        lemma_asked_from(names, desktop, theme, 0, Seq::empty());
    }
}

proof fn lemma_asked_from(
    names: Seq<Seq<char>>,
    desktop: spec_fn(Seq<char>) -> Option<Seq<char>>,
    theme: spec_fn(Seq<char>) -> bool,
    i: int,
    icon: Seq<char>,
)
    requires
        0 <= i <= names.len() <= usize::MAX,
    ensures
        ({
            let s = IconSearchView { names, stage: IconSearchView::from_app(names, i), icon };
            asked(s, desktop, theme, (names.len() - i + 1) as nat).question()
                == IconQuestionView::Answer(
                match desktop_choice(names, desktop, i) {
                    Some(icon) => Some(icon),
                    None => if names.len() > 0 && theme(lowercase(names[0])) {
                        Some(lowercase(names[0]))
                    } else {
                        None
                    },
                },
            )
        }),
    decreases names.len() - i,
{
    let s = IconSearchView { names, stage: IconSearchView::from_app(names, i), icon };
    if i < names.len() {
        if desktop(names[i]) is None {
            lemma_asked_from(names, desktop, theme, i + 1, icon);
        } else {
            let t = s.after_desktop(desktop(names[i]));
            assert(asked(t, desktop, theme, (names.len() - i) as nat) == t);
        }
    } else if names.len() > 0 {
        let t = s.after_theme(theme(lowercase(names[0])));
        assert(asked(t, desktop, theme, 0) == t);
    }
}

/// What the desktop files give the apps.
pub open spec fn desktop_icons(files: Seq<DesktopFile>) -> spec_fn(Seq<char>) -> Option<Seq<char>> {
    |app: Seq<char>| icon_of_files(files, app, 0)
}

/// An app is shown with the same icon in the volume popup and in both mute
/// popups, where one was found. Where none is configured or found, the mute
/// popups show whether the app is muted.
pub proof fn law_popups_share_the_icon(
    config_icon: Option<Seq<char>>,
    names: Seq<Seq<char>>,
    files: Seq<DesktopFile>,
    theme: spec_fn(Seq<char>) -> bool,
)
    requires
        forall|i: int| 0 <= i < names.len() ==> (#[trigger] names[i]).len() > 0,
    ensures
        ({
            let found = choice(config_icon, names, desktop_icons(files), theme);
            let shown = volume_popup_icon(found);
            &&& shown.len() > 0 ==> mute_popup_icon(found, true) == shown && mute_popup_icon(
                found,
                false,
            ) == shown
            &&& config_icon is None && shown.len() == 0 ==> mute_popup_icon(found, true)
                == "audio-volume-muted"@ && mute_popup_icon(found, false) == "audio-volume-high"@
        }),
{
    if config_icon is None {
        lemma_desktop_choice_is_named(names, files, 0);
        if names.len() > 0 {
            assert(lowercase(names[0]).len() > 0);
        }
    }
}

proof fn lemma_desktop_choice_is_named(names: Seq<Seq<char>>, files: Seq<DesktopFile>, i: int)
    ensures
        desktop_choice(names, desktop_icons(files), i) matches Some(icon) ==> icon.len() > 0,
    decreases names.len() - i,
{
    if i < names.len() {
        lemma_icon_is_named(files, names[i], 0);
        lemma_desktop_choice_is_named(names, files, i + 1);
    }
}

proof fn lemma_icon_is_named(files: Seq<DesktopFile>, app: Seq<char>, i: int)
    ensures
        icon_of_files(files, app, i) matches Some(icon) ==> icon.len() > 0,
    decreases files.len() - i,
{
    if i < files.len() {
        if let Some(content) = files[i].content {
            lemma_line_icon_is_named(lines_of(content@), 0);
        }
        lemma_icon_is_named(files, app, i + 1);
    }
}

proof fn lemma_line_icon_is_named(lines: Seq<Seq<char>>, i: int)
    ensures
        icon_from(lines, i) matches Some(icon) ==> icon.len() > 0,
    decreases lines.len() - i,
{
    if i < lines.len() {
        lemma_line_icon_is_named(lines, i + 1);
    }
}

/// A file that does not name the app has no say in its icon.
pub proof fn law_unrelated_files_give_no_icon(files: Seq<DesktopFile>, app: Seq<char>)
    requires
        forall|i: int|
            0 <= i < files.len() ==> !names_app(
                (#[trigger] files[i]).stem@,
                opt_text(files[i].extension),
                app,
            ),
    ensures
        icon_of_files(files, app, 0) is None,
{
    lemma_no_icon_from(files, app, 0);
}

proof fn lemma_no_icon_from(files: Seq<DesktopFile>, app: Seq<char>, i: int)
    requires
        0 <= i,
        forall|j: int|
            0 <= j < files.len() ==> !names_app(
                (#[trigger] files[j]).stem@,
                opt_text(files[j].extension),
                app,
            ),
    ensures
        icon_of_files(files, app, i) is None,
    decreases files.len() - i,
{
    if i < files.len() {
        lemma_no_icon_from(files, app, i + 1);
    }
}

proof fn lemma_joined_grows(parts: Seq<Seq<char>>, part: Seq<char>, c: char)
    ensures
        joined(parts.push(part.push(c)), "\n"@) == joined(parts.push(part), "\n"@).push(c),
{
    assert(parts.push(part.push(c)).drop_last() =~= parts);
    assert(parts.push(part).drop_last() =~= parts);
    if parts.len() == 0 {
        assert(joined(parts.push(part.push(c)), "\n"@) =~= part.push(c));
    } else {
        assert(joined(parts, "\n"@) + "\n"@ + part.push(c) =~= (joined(parts, "\n"@) + "\n"@
            + part).push(c));
    }
}

/// The lines of a text, with a line feed between each two, are the text again,
/// and no line holds a line feed.
pub proof fn law_lines_make_up_the_text(s: Seq<char>)
    ensures
        lines_of(s).len() > 0,
        joined(lines_of(s), "\n"@) == s,
        forall|i: int, j: int|
            0 <= i < lines_of(s).len() && 0 <= j < lines_of(s)[i].len() ==> #[trigger] lines_of(
                s,
            )[i][j] != '\n',
    decreases s.len(),
{
    reveal_strlit("\n");
    let all = lines_of(s);
    if s.len() > 0 {
        let t = s.drop_last();
        law_lines_make_up_the_text(t);
        let before = lines_of(t);
        assert(s =~= t.push(s.last()));
        if s.last() == '\n' {
            assert(all.drop_last() =~= before);
            assert(joined(before, "\n"@) + "\n"@ + Seq::<char>::empty() =~= s);
        } else {
            lemma_joined_grows(before.drop_last(), before.last(), s.last());
            assert(before.drop_last().push(before.last()) =~= before);
            assert forall|i: int, j: int| 0 <= i < all.len() && 0 <= j < all[i].len() implies
                #[trigger] all[i][j] != '\n' by {
                if i < before.len() - 1 {
                    assert(all[i] == before[i]);
                } else if j < before.last().len() {
                    assert(all[i][j] == before[before.len() - 1][j]);
                }
            }
        }
    } else {
        assert(joined(all, "\n"@) =~= s);
    }
}

/// Whether a line is a title: between brackets, with white space around it or
/// not.
pub open spec fn titled(line: Seq<char>) -> bool {
    trimmed(line).len() > 0 && trimmed(line)[0] == '[' && trimmed(line).last() == ']'
}

/// Whether a line is one of the section `[Desktop Entry]`: no title stands
/// between that title and the line.
pub open spec fn of_desktop_entry(lines: Seq<Seq<char>>, i: int) -> bool {
    exists|t: int|
        0 <= t < i && trimmed(#[trigger] lines[t]) == "[Desktop Entry]"@ && forall|j: int|
            t < j <= i ==> !titled(#[trigger] lines[j])
}

/// Whether a line gives an icon.
pub open spec fn gives_icon(line: Seq<char>, icon: Seq<char>) -> bool {
    icon.len() > 0 && exists|rest: Seq<char>|
        trimmed(line) == "Icon="@ + rest && #[trigger] trimmed(rest) == icon
}

proof fn lemma_of_desktop_entry(lines: Seq<Seq<char>>, i: int)
    requires
        0 <= i < lines.len(),
    ensures
        of_desktop_entry(lines, i) <==> in_desktop_entry(lines, i) && !titled(lines[i]),
    decreases i,
{
    reveal_strlit("[Desktop Entry]");
    if i > 0 {
        lemma_of_desktop_entry(lines, i - 1);
        if of_desktop_entry(lines, i) {
            let t = choose|t: int|
                0 <= t < i && trimmed(#[trigger] lines[t]) == "[Desktop Entry]"@ && forall|j: int|
                    t < j <= i ==> !titled(#[trigger] lines[j]);
            assert(!titled(lines[i]));
            if t < i - 1 {
                assert(trimmed(lines[t]) == "[Desktop Entry]"@);
                assert(of_desktop_entry(lines, i - 1));
                assert(!titled(lines[i - 1]));
            }
        }
        if in_desktop_entry(lines, i) && !titled(lines[i]) {
            if titled(lines[i - 1]) {
                assert(trimmed(lines[i - 1]) == "[Desktop Entry]"@);
            } else {
                let t = choose|t: int|
                    0 <= t < i - 1 && trimmed(#[trigger] lines[t]) == "[Desktop Entry]"@
                        && forall|j: int| t < j <= i - 1 ==> !titled(#[trigger] lines[j]);
                assert(trimmed(lines[t]) == "[Desktop Entry]"@);
            }
        }
    }
}

proof fn lemma_icon_at(lines: Seq<Seq<char>>, i: int, icon: Seq<char>)
    requires
        0 <= i < lines.len(),
    ensures
        icon_at(lines, i) == Some(icon) <==> of_desktop_entry(lines, i) && gives_icon(
            lines[i],
            icon,
        ),
{
    lemma_of_desktop_entry(lines, i);
    let line = trimmed(lines[i]);
    if let Some(rest) = after_prefix(line, "Icon="@) {
        law_prefix_and_rest_are_the_text(line, "Icon="@, rest);
        assert(line == "Icon="@ + rest);
        assert(trimmed(rest) == trimmed(rest));
    }
    if gives_icon(lines[i], icon) {
        let rest = choose|rest: Seq<char>|
            line == "Icon="@ + rest && #[trigger] trimmed(rest) == icon;
        law_prefix_and_rest_are_the_text(line, "Icon="@, rest);
    }
}

proof fn lemma_icon_from(lines: Seq<Seq<char>>, i: int)
    requires
        0 <= i,
    ensures
        match icon_from(lines, i) {
            Some(icon) => exists|k: int|
                i <= k < lines.len() && #[trigger] icon_at(lines, k) == Some(icon) && forall|j: int|
                    i <= j < k ==> #[trigger] icon_at(lines, j) is None,
            None => forall|j: int| i <= j < lines.len() ==> #[trigger] icon_at(lines, j) is None,
        },
    decreases lines.len() - i,
{
    if i < lines.len() {
        if icon_at(lines, i) is None {
            lemma_icon_from(lines, i + 1);
            if let Some(icon) = icon_from(lines, i + 1) {
                let k = choose|k: int|
                    i + 1 <= k < lines.len() && #[trigger] icon_at(lines, k) == Some(icon)
                        && forall|j: int| i + 1 <= j < k ==> #[trigger] icon_at(lines, j) is None;
                assert(icon_at(lines, k) == Some(icon));
            }
        } else {
            assert(icon_at(lines, i) == icon_from(lines, i));
        }
    }
}

/// The icon of a desktop file is what the first line of its section
/// `[Desktop Entry]` with an icon has behind `Icon=`, without the white space
/// around it. Lines of other sections do not count, nor do empty icons.
pub proof fn law_desktop_entries_name_the_icon(content: Seq<char>)
    ensures
        ({
            let lines = lines_of(content);
            match icon_in(content) {
                Some(icon) => exists|i: int|
                    {
                        &&& 0 <= i < lines.len()
                        &&& of_desktop_entry(lines, i)
                        &&& gives_icon(#[trigger] lines[i], icon)
                        &&& forall|j: int, other: Seq<char>|
                            0 <= j < i && of_desktop_entry(lines, j) ==> !#[trigger] gives_icon(
                                lines[j],
                                other,
                            )
                    },
                None => forall|j: int, other: Seq<char>|
                    0 <= j < lines.len() && of_desktop_entry(lines, j) ==> !#[trigger] gives_icon(
                        lines[j],
                        other,
                    ),
            }
        }),
{
    let lines = lines_of(content);
    lemma_icon_from(lines, 0);
    match icon_in(content) {
        Some(icon) => {
            let i = choose|k: int|
                0 <= k < lines.len() && #[trigger] icon_at(lines, k) == Some(icon) && forall|j: int|
                    0 <= j < k ==> #[trigger] icon_at(lines, j) is None;
            lemma_icon_at(lines, i, icon);
            assert forall|j: int, other: Seq<char>|
                0 <= j < i && of_desktop_entry(lines, j) implies !#[trigger] gives_icon(
                lines[j],
                other,
            ) by {
                lemma_icon_at(lines, j, other);
                assert(icon_at(lines, j) is None);
            }
            assert(gives_icon(lines[i], icon));
        },
        None => {
            assert forall|j: int, other: Seq<char>|
                0 <= j < lines.len() && of_desktop_entry(lines, j) implies !#[trigger] gives_icon(
                lines[j],
                other,
            ) by {
                lemma_icon_at(lines, j, other);
                assert(icon_at(lines, j) is None);
            }
        },
    }
}

/// Whether a file gives an app an icon: it is a desktop file whose name has
/// that of the app in it, whatever the case, it can be read, and it names the
/// icon.
pub open spec fn file_gives(f: DesktopFile, app: Seq<char>, icon: Seq<char>) -> bool {
    &&& f.extension is Some && f.extension->Some_0@ == "desktop"@
    &&& found_in(lowercase(app), lowercase(f.stem@))
    &&& f.content is Some && icon_in(f.content->Some_0@) == Some(icon)
}

proof fn lemma_files_give(files: Seq<DesktopFile>, app: Seq<char>, i: int)
    requires
        0 <= i,
    ensures
        match icon_of_files(files, app, i) {
            Some(icon) => exists|k: int|
                i <= k < files.len() && #[trigger] icon_of_file(files[k], app) == Some(icon)
                    && forall|j: int| i <= j < k ==> #[trigger] icon_of_file(files[j], app) is None,
            None => forall|j: int|
                i <= j < files.len() ==> #[trigger] icon_of_file(files[j], app) is None,
        },
    decreases files.len() - i,
{
    if i < files.len() {
        if icon_of_file(files[i], app) is None {
            lemma_files_give(files, app, i + 1);
            if let Some(icon) = icon_of_files(files, app, i + 1) {
                let k = choose|k: int|
                    i + 1 <= k < files.len() && #[trigger] icon_of_file(files[k], app) == Some(icon)
                        && forall|j: int|
                        i + 1 <= j < k ==> #[trigger] icon_of_file(files[j], app) is None;
                assert(icon_of_file(files[k], app) == Some(icon));
            }
        } else {
            assert(icon_of_file(files[i], app) == icon_of_files(files, app, i));
        }
    }
}

proof fn lemma_file_gives(f: DesktopFile, app: Seq<char>, icon: Seq<char>)
    ensures
        icon_of_file(f, app) == Some(icon) <==> file_gives(f, app, icon),
{
    law_substrings_are_cut_out(lowercase(app), lowercase(f.stem@));
}

/// The first file that gives an app an icon decides; where none does, there is
/// none.
pub proof fn law_the_first_file_decides(files: Seq<DesktopFile>, app: Seq<char>)
    ensures
        match icon_of_files(files, app, 0) {
            Some(icon) => exists|i: int|
                {
                    &&& 0 <= i < files.len()
                    &&& file_gives(#[trigger] files[i], app, icon)
                    &&& forall|j: int, other: Seq<char>|
                        0 <= j < i ==> !#[trigger] file_gives(files[j], app, other)
                },
            None => forall|j: int, other: Seq<char>|
                0 <= j < files.len() ==> !#[trigger] file_gives(files[j], app, other),
        },
{
    lemma_files_give(files, app, 0);
    match icon_of_files(files, app, 0) {
        Some(icon) => {
            let i = choose|k: int|
                0 <= k < files.len() && #[trigger] icon_of_file(files[k], app) == Some(icon)
                    && forall|j: int| 0 <= j < k ==> #[trigger] icon_of_file(files[j], app) is None;
            lemma_file_gives(files[i], app, icon);
            assert forall|j: int, other: Seq<char>| 0 <= j < i implies !#[trigger] file_gives(
                files[j],
                app,
                other,
            ) by {
                lemma_file_gives(files[j], app, other);
                assert(icon_of_file(files[j], app) is None);
            }
            assert(file_gives(files[i], app, icon));
        },
        None => {
            assert forall|j: int, other: Seq<char>| 0 <= j < files.len() implies
                !#[trigger] file_gives(files[j], app, other) by {
                lemma_file_gives(files[j], app, other);
                assert(icon_of_file(files[j], app) is None);
            }
        },
    }
}

/// A popup shows the icon that was found. Where none was, a volume popup shows
/// none, and a mute popup the loudspeaker, crossed out where the app is muted.
pub proof fn law_popups_show_the_icon_found(icon: Seq<char>, muted: bool)
    ensures
        volume_popup_icon(Some(icon)) == icon && mute_popup_icon(Some(icon), muted) == icon,
        volume_popup_icon(None).len() == 0,
        mute_popup_icon(None, true) == "audio-volume-muted"@,
        mute_popup_icon(None, false) == "audio-volume-high"@,
{
}

} // verus!
