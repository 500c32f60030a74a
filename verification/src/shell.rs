//! Integration with the system's shell: which texts name this program there,
//! and what the system's answers mean. Where there is no such shell, nothing
//! is asked and the answers are the harmless ones.

use vstd::prelude::*;
use vstd::string::*;
use crate::text;
use crate::text::Text;

verus! {

broadcast use vstd::string::group_string_axioms;

/// Names the program to the system; the installer uses the same name.
pub const APP_USER_MODEL_ID: &'static str = "io.github.va1erian.esmail";

/// Names the lock that only one running copy holds; the installer uses the
/// same name.
pub const SINGLE_INSTANCE_MUTEX: &'static str = "esMail.SingleInstance";

/// Names the event by which a later launch asks for the window.
pub const SHOW_WINDOW_EVENT: &'static str = "esMail.ShowWindow";

/// What notices of new mail are shown under.
pub const DISPLAY_NAME: &'static str = "esMail";

// ── Wide texts ──────────────────────────────────────────────────────────────

/// The UTF-16 code units of a character.
pub open spec fn units(c: char) -> Seq<u16> {
    let n = c as u32;
    if n < 0x10000 {
        seq![n as u16]
    } else {
        seq![
            (0xd800 + (n - 0x10000) / 0x400) as u16,
            (0xdc00 + (n - 0x10000) % 0x400) as u16,
        ]
    }
}

/// The UTF-16 code units of a text.
pub open spec fn utf16(s: Text) -> Seq<u16>
    decreases s.len(),
{
    if s.len() == 0 {
        seq![]
    } else {
        utf16(s.drop_last()) + units(s.last())
    }
}

/// A text as the system takes it: UTF-16, with a zero at the end.
pub open spec fn wide_text(s: Text) -> Seq<u16> {
    utf16(s).push(0)
}

/// A text as the system takes it: UTF-16, with a zero at the end.
pub fn wide(s: &str) -> (r: Vec<u16>)
    ensures
        r@ == wide_text(s@),
{
    let chars = text::chars_of(s);
    let mut r: Vec<u16> = Vec::new();
    let mut i: usize = 0;
    assert(r@ =~= utf16(s@.take(0)));
    while i < chars.len()
        invariant
            i <= chars@.len(),
            chars@ == s@,
            r@ == utf16(s@.take(i as int)),
        decreases chars@.len() - i,
    {
        let ghost held = r@;
        assert(s@.take(i + 1).drop_last() =~= s@.take(i as int));
        assert(s@.take(i + 1).last() == chars@[i as int]);
        let n: u32 = chars[i] as u32;
        if n < 0x10000 {
            r.push(n as u16);
        } else {
            let high: u32 = 0xd800 + (n - 0x10000) / 0x400;
            let low: u32 = 0xdc00 + (n - 0x10000) % 0x400;
            r.push(high as u16);
            r.push(low as u16);
        }
        assert(r@ =~= held + units(chars@[i as int]));
        i += 1;
    }
    assert(s@.take(s@.len() as int) =~= s@);
    r.push(0);
    r
}

// ── One running copy ────────────────────────────────────────────────────────

/// What the system answered when the lock was claimed.
#[derive(Debug, Clone, Copy, PartialEq, Eq, Structural)]
pub struct Claim {
    /// There is an event by which later launches can ask for the window.
    pub has_event: bool,
    /// There is a lock.
    pub has_lock: bool,
    /// The lock was there before.
    pub existed: bool,
}

/// Whether this process is the one that owns the tray icon and the cache.
#[derive(Debug, Clone, Copy, PartialEq, Eq, Structural)]
pub enum Instance {
    First(FirstInstance),
    /// Another copy is running and is to be asked to show itself.
    AlreadyRunning,
}

/// Held for the life of the process.
#[derive(Debug, Clone, Copy, PartialEq, Eq, Structural)]
pub struct FirstInstance {
    /// Later launches can ask for the window.
    pub show_event: bool,
}

impl FirstInstance {
    /// Whether to wait for later launches that ask for the window.
    pub fn on_show_requested(&self) -> (r: bool)
        ensures
            r == self.show_event,
    {
        self.show_event
    }
}

/// What a claim for the lock means; where there is no shell, no other copy can
/// be found.
pub open spec fn instance_of(claim: Option<Claim>) -> Instance {
    match claim {
        None => Instance::First(FirstInstance { show_event: false }),
        Some(c) => if c.has_lock && c.existed {
            Instance::AlreadyRunning
        } else {
            Instance::First(FirstInstance { show_event: c.has_event })
        },
    }
}

/// What a claim for the lock means.
pub fn acquire_single_instance(claim: Option<Claim>) -> (r: Instance)
    ensures
        r == instance_of(claim),
{
    match claim {
        None => Instance::First(FirstInstance { show_event: false }),
        Some(c) => {
            if c.has_lock && c.existed {
                Instance::AlreadyRunning
            } else {
                Instance::First(FirstInstance { show_event: c.has_event })
            }
        },
    }
}

/// The names of the event and of the lock, in the order in which they are
/// made: whoever finds the lock taken can then rely on the event.
pub fn claim_names() -> (r: (Vec<u16>, Vec<u16>))
    ensures
        r.0@ == wide_text(SHOW_WINDOW_EVENT@),
        r.1@ == wide_text(SINGLE_INSTANCE_MUTEX@),
{
    (wide(SHOW_WINDOW_EVENT), wide(SINGLE_INSTANCE_MUTEX))
}

// ── Identity ────────────────────────────────────────────────────────────────

/// The name by which the process tells the system which program it is.
pub fn set_process_identity() -> (r: Vec<u16>)
    ensures
        r@ == wide_text(APP_USER_MODEL_ID@),
{
    wide(APP_USER_MODEL_ID)
}

/// Where the system keeps what is shown for this program's notices.
pub open spec fn identity_key() -> Text {
    "Software\\Classes\\AppUserModelId\\"@ + APP_USER_MODEL_ID@
}

/// Where the system keeps what is shown for this program's notices.
pub fn registry_key() -> (r: Vec<u16>)
    ensures
        r@ == wide_text(identity_key()),
{
    let mut key = "Software\\Classes\\AppUserModelId\\".to_owned();
    key.append(APP_USER_MODEL_ID);
    wide(key.as_str())
}

/// A named value to be stored.
#[verifier::ext_equal]
pub struct NamedValueModel {
    pub name: Seq<u16>,
    pub value: Seq<u16>,
}

/// A named value to be stored.
pub struct NamedValue {
    pub name: Vec<u16>,
    pub value: Vec<u16>,
}

impl View for NamedValue {
    type V = NamedValueModel;

    open spec fn view(&self) -> NamedValueModel {
        NamedValueModel { name: self.name@, value: self.value@ }
    }
}

impl DeepView for NamedValue {
    type V = NamedValueModel;

    open spec fn deep_view(&self) -> NamedValueModel {
        self.view()
    }
}

/// A name and a value, as the system takes them.
pub open spec fn named(name: Text, value: Text) -> NamedValueModel {
    NamedValueModel { name: wide_text(name), value: wide_text(value) }
}

/// What is stored so that notices carry the program's name, and its picture
/// where there is a file that holds it.
pub open spec fn identity_values(icon_path: Option<Text>) -> Seq<NamedValueModel> {
    let name = named("DisplayName"@, DISPLAY_NAME@);
    match icon_path {
        Some(path) => seq![name, named("IconUri"@, path)],
        None => seq![name],
    }
}

/// What is stored, in order, so that notices carry the program's name and
/// picture.
pub fn register_notification_identity(icon_path: Option<&str>) -> (r: Vec<NamedValue>)
    ensures
        r.deep_view() == identity_values(
            match icon_path {
                Some(path) => Some(path@),
                None => None,
            },
        ),
{
    let mut r: Vec<NamedValue> = Vec::new();
    let name = NamedValue { name: wide("DisplayName"), value: wide(DISPLAY_NAME) };
    r.push(name);
    if let Some(path) = icon_path {
        let icon = NamedValue { name: wide("IconUri"), value: wide(path) };
        r.push(icon);
        assert(r.deep_view() =~= seq![named("DisplayName"@, DISPLAY_NAME@), named("IconUri"@, path@)]);
    } else {
        assert(r.deep_view() =~= seq![named("DisplayName"@, DISPLAY_NAME@)]);
    }
    r
}

/// Whether a file that should hold `wanted` is missing or holds something else.
pub open spec fn differs(current: Option<Seq<u8>>, wanted: Seq<u8>) -> bool {
    match current {
        Some(bytes) => bytes != wanted,
        None => true,
    }
}

/// Whether the file with the picture has to be written: it is not there, or
/// holds something else.
pub fn icon_is_outdated(current: Option<&Vec<u8>>, wanted: &Vec<u8>) -> (r: bool)
    ensures
        r == differs(
            match current {
                Some(bytes) => Some(bytes@),
                None => None,
            },
            wanted@,
        ),
{
    match current {
        Some(bytes) => !text::same_bytes(bytes, wanted),
        None => true,
    }
}

/// The system's answer that all went well.
pub const SUCCESS: u32 = 0;

/// The system's answer that there is no such entry.
pub const NOT_FOUND: u32 = 2;

/// What the system's answer to a change means.
pub open spec fn stored_result(status: u32) -> Result<(), u32> {
    if status == SUCCESS {
        Ok(())
    } else {
        Err(status)
    }
}

/// What the system's answer to a change means.
pub fn stored(status: u32) -> (r: Result<(), u32>)
    ensures
        r == stored_result(status),
{
    if status == SUCCESS {
        Ok(())
    } else {
        Err(status)
    }
}

/// What the system's answer to removing the identity means.
pub open spec fn removed_result(status: Option<u32>) -> Result<(), u32> {
    match status {
        Some(code) if code != SUCCESS && code != NOT_FOUND => Err(code),
        _ => Ok(()),
    }
}

/// What the system's answer to removing the identity means: it is gone, also
/// where it never was. Where there is no shell, there is nothing to remove.
pub fn unregister_notification_identity(status: Option<u32>) -> (r: Result<(), u32>)
    ensures
        r == removed_result(status),
{
    match status {
        Some(code) if code != SUCCESS && code != NOT_FOUND => Err(code),
        _ => Ok(()),
    }
}

// ── Looks ───────────────────────────────────────────────────────────────────

/// Whether the tray is dark, by the system's answer.
pub open spec fn is_dark(answer: Option<(u32, u32)>) -> bool {
    match answer {
        Some((status, light)) => status != SUCCESS || light == 0,
        None => true,
    }
}

/// The side of a small icon, by the system's answer.
pub open spec fn icon_side(metric: Option<i32>) -> u32 {
    match metric {
        Some(px) if px > 0 => px as u32,
        _ => 16,
    }
}

/// Whether the tray is dark. The system answers with a status and whether it
/// uses the light theme; a system without a light tray has no such answer.
pub fn taskbar_is_dark(answer: Option<(u32, u32)>) -> (r: bool)
    ensures
        r == is_dark(answer),
{
    match answer {
        Some((status, light)) => status != SUCCESS || light == 0,
        None => true,
    }
}

/// The side of a small icon, in pixels, from what the system answers.
pub fn small_icon_px(metric: Option<i32>) -> (r: u32)
    ensures
        r == icon_side(metric),
{
    match metric {
        Some(px) if px > 0 => px as u32,
        _ => 16,
    }
}

// ── Laws ────────────────────────────────────────────────────────────────────

/// A wide text ends at its first zero, wherever the text itself holds none.
pub proof fn law_wide_text_is_terminated(s: Text)
    requires
        forall|i: int| 0 <= i < s.len() ==> s[i] != '\0',
    ensures
        wide_text(s).last() == 0,
        forall|i: int| 0 <= i < wide_text(s).len() - 1 ==> #[trigger] wide_text(s)[i] != 0,
{
    lemma_units_are_not_zero(s);
}

proof fn lemma_unit_is_not_zero(c: char)
    requires
        c != '\0',
    ensures
        forall|i: int| 0 <= i < units(c).len() ==> #[trigger] units(c)[i] != 0,
{
    let n = c as u32;
    assert(0 < n <= 0x10ffff);
}

proof fn lemma_units_are_not_zero(s: Text)
    requires
        forall|i: int| 0 <= i < s.len() ==> s[i] != '\0',
    ensures
        forall|i: int| 0 <= i < utf16(s).len() ==> #[trigger] utf16(s)[i] != 0,
    decreases s.len(),
{
    if s.len() > 0 {
        let rest = s.drop_last();
        assert forall|i: int| 0 <= i < rest.len() implies rest[i] != '\0' by {
            assert(rest[i] == s[i]);
        }
        lemma_units_are_not_zero(rest);
        let last = s.last();
        assert(s[s.len() - 1] != '\0');
        lemma_unit_is_not_zero(last);
        let before = utf16(rest);
        assert forall|i: int| 0 <= i < utf16(s).len() implies #[trigger] utf16(s)[i] != 0 by {
            if i < before.len() {
                assert(utf16(s)[i] == before[i]);
            } else {
                assert(utf16(s)[i] == units(last)[i - before.len()]);
            }
        }
    }
}

} // verus!
