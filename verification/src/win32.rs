use vstd::prelude::*;

verus! {

/// The error that `CreateMutexW` leaves when the named mutex existed already.
pub const ERROR_ALREADY_EXISTS: u32 = 183;

/// The UTF-16 code units of one character.
pub open spec fn utf16_of_char(c: char) -> Seq<u16> {
    let u = c as u32;
    if u < 0x10000 {
        seq![u as u16]
    } else {
        seq![(0xD800 + (u - 0x10000) / 0x400) as u16, (0xDC00 + (u - 0x10000) % 0x400) as u16]
    }
}

/// The UTF-16 encoding of `s`.
pub open spec fn utf16(s: Seq<char>) -> Seq<u16>
    decreases s.len(),
{
    if s.len() == 0 {
        Seq::empty()
    } else {
        utf16(s.drop_last()) + utf16_of_char(s.last())
    }
}

/// `s` as a NUL-terminated UTF-16 string, as the Windows API takes it.
pub fn to_wide(s: &str) -> (r: Vec<u16>)
    ensures
        r@ == utf16(s@).push(0),
{
    let mut out: Vec<u16> = Vec::new();
    for c in it: s.chars()
        invariant
            it.seq() == s@,
            out@ == utf16(it.seq().take(it.index() as int)),
    {
        let ghost before = it.seq().take(it.index() as int);
        let ghost after = it.seq().take(it.index() + 1);
        assert(after.drop_last() =~= before);
        assert(after.last() == c);
        let u = c as u32;
        if u < 0x10000 {
            out.push(u as u16);
        } else {
            let v = u - 0x10000;
            out.push((0xD800 + v / 0x400) as u16);
            out.push((0xDC00 + v % 0x400) as u16);
        }
        assert(out@ =~= utf16(before) + utf16_of_char(c));
    }
    assert(s@.take(s@.len() as int) =~= s@);
    out.push(0);
    out
}

/// A GUID in its Windows layout.
#[derive(Clone, Copy, Debug, PartialEq, Eq)]
pub struct Guid {
    pub data1: u32,
    pub data2: u16,
    pub data3: u16,
    pub data4: [u8; 8],
}

/// The GUID whose 16 bytes, as stored (little-endian fields), are `b`.
pub open spec fn guid_from_bytes(b: Seq<u8>) -> (u32, u16, u16, Seq<u8>) {
    (
        (b[0] + 0x100 * b[1] + 0x10000 * b[2] + 0x1000000 * b[3]) as u32,
        (b[4] + 0x100 * b[5]) as u16,
        (b[6] + 0x100 * b[7]) as u16,
        b.subrange(8, 16),
    )
}

/// Reads the current virtual desktop's GUID from what the registry query gave:
/// its status, the number of bytes it wrote and the bytes. `None` unless the
/// query succeeded with exactly 16 bytes.
pub fn desktop_guid(status: i32, len: u32, bytes: &[u8; 16]) -> (r: Option<Guid>)
    ensures
        r is Some <==> status == 0 && len == 16,
        r matches Some(g) ==> (g.data1, g.data2, g.data3, g.data4@) == guid_from_bytes(bytes@),
{
    if status != 0 || len != 16 {
        return None;
    }
    let data1: u32 = (bytes[0] as u32) + 0x100 * (bytes[1] as u32) + 0x10000 * (bytes[2] as u32)
        + 0x1000000 * (bytes[3] as u32);
    let data2: u16 = (bytes[4] as u16) + 0x100 * (bytes[5] as u16);
    let data3: u16 = (bytes[6] as u16) + 0x100 * (bytes[7] as u16);
    let data4: [u8; 8] = [
        bytes[8],
        bytes[9],
        bytes[10],
        bytes[11],
        bytes[12],
        bytes[13],
        bytes[14],
        bytes[15],
    ];
    assert(data4@ =~= bytes@.subrange(8, 16));
    Some(Guid { data1, data2, data3, data4 })
}

/// Another instance holds the single-instance mutex, judging by the error
/// that creating it left.
pub fn is_already_running(last_error: u32) -> (r: bool)
    ensures
        r == (last_error == ERROR_ALREADY_EXISTS),
{
    last_error == ERROR_ALREADY_EXISTS
}

/// One call in bringing the running instance's window to the front.
#[derive(Clone, Copy, Debug, PartialEq, Eq, Structural)]
pub enum FocusStep {
    /// Attach the foreground thread's input to the window's thread.
    AttachInput,
    /// Restore the window if it is minimized.
    Restore,
    BringToTop,
    SetForeground,
    /// Switch to the window as Alt+Tab would.
    SwitchTo,
    /// Detach the input attached first.
    DetachInput,
}

pub open spec fn focus_plan(foreground_thread: u32, window_thread: u32) -> Seq<FocusStep> {
    if foreground_thread != window_thread {
        seq![
            FocusStep::AttachInput,
            FocusStep::Restore,
            FocusStep::BringToTop,
            FocusStep::SetForeground,
            FocusStep::SwitchTo,
            FocusStep::DetachInput,
        ]
    } else {
        seq![FocusStep::Restore, FocusStep::BringToTop, FocusStep::SetForeground]
    }
}

/// The calls that bring the window owned by `window_thread` to the front when
/// `foreground_thread` owns the foreground: a foreign foreground thread's
/// input is attached around them, so that Windows lets the focus move.
pub fn focus_steps(foreground_thread: u32, window_thread: u32) -> (r: Vec<FocusStep>)
    ensures
        r@ == focus_plan(foreground_thread, window_thread),
{
    let mut r: Vec<FocusStep> = Vec::new();
    if foreground_thread != window_thread {
        r.push(FocusStep::AttachInput);
        r.push(FocusStep::Restore);
        r.push(FocusStep::BringToTop);
        r.push(FocusStep::SetForeground);
        r.push(FocusStep::SwitchTo);
        r.push(FocusStep::DetachInput);
    } else {
        r.push(FocusStep::Restore);
        r.push(FocusStep::BringToTop);
        r.push(FocusStep::SetForeground);
    }
    assert(r@ =~= focus_plan(foreground_thread, window_thread));
    r
}


/// The virtual desktop manager's class on Windows 11 24H2, tried first.
pub fn clsid_desktop_manager() -> (g: Guid)
    ensures
        g.data1 == 0xAA509086u32 && g.data2 == 0x5CA9u16 && g.data3 == 0x4C25u16,
        g.data4@ == seq![0x8Fu8, 0x95, 0x58, 0x9D, 0x3C, 0x07, 0xB4, 0x8A],
{
    let g = Guid {
        data1: 0xAA509086,
        data2: 0x5CA9,
        data3: 0x4C25,
        data4: [0x8F, 0x95, 0x58, 0x9D, 0x3C, 0x07, 0xB4, 0x8A],
    };
    assert(g.data4@ =~= seq![0x8Fu8, 0x95, 0x58, 0x9D, 0x3C, 0x07, 0xB4, 0x8A]);
    g
}

/// The virtual desktop manager's class on earlier Windows, tried second.
pub fn clsid_desktop_manager_legacy() -> (g: Guid)
    ensures
        g.data1 == 0xAA509085u32 && g.data2 == 0x5CA9u16 && g.data3 == 0x4C25u16,
        g.data4@ == seq![0x8Fu8, 0x95, 0x58, 0x9D, 0x3C, 0x07, 0xB4, 0x8A],
{
    let g = Guid {
        data1: 0xAA509085,
        data2: 0x5CA9,
        data3: 0x4C25,
        data4: [0x8F, 0x95, 0x58, 0x9D, 0x3C, 0x07, 0xB4, 0x8A],
    };
    assert(g.data4@ =~= seq![0x8Fu8, 0x95, 0x58, 0x9D, 0x3C, 0x07, 0xB4, 0x8A]);
    g
}

/// The interface `IVirtualDesktopManager`.
pub fn iid_desktop_manager() -> (g: Guid)
    ensures
        g.data1 == 0xA5CD92FFu32 && g.data2 == 0x29BEu16 && g.data3 == 0x454Cu16,
        g.data4@ == seq![0x8Du8, 0x04, 0xD8, 0x28, 0x79, 0xFB, 0x3F, 0x1B],
{
    let g = Guid {
        data1: 0xA5CD92FF,
        data2: 0x29BE,
        data3: 0x454C,
        data4: [0x8D, 0x04, 0xD8, 0x28, 0x79, 0xFB, 0x3F, 0x1B],
    };
    assert(g.data4@ =~= seq![0x8Du8, 0x04, 0xD8, 0x28, 0x79, 0xFB, 0x3F, 0x1B]);
    g
}

/// Whether to try the legacy class after creating the manager with the
/// 24H2 class gave `hr` (anything but `S_OK` means it failed).
pub fn retry_with_legacy_class(hr: i32) -> (r: bool)
    ensures
        r == (hr != 0),
{
    hr != 0
}

/// Whether the manager can be used to move the window: it was created
/// (`hr` is `S_OK`) and the pointer it gave is not null.
pub fn desktop_manager_ready(hr: i32, pointer_is_null: bool) -> (r: bool)
    ensures
        r == (hr == 0 && !pointer_is_null),
{
    hr == 0 && !pointer_is_null
}


/// Input is attached exactly when the foreground belongs to another thread,
/// and then detached as the last step; either way the window is restored,
/// brought to the top and made the foreground window, in that order.
pub proof fn lemma_input_attached_across_threads(f: u32, w: u32)
    ensures
        ({
            let p = focus_plan(f, w);
            &&& p.len() >= 3
            &&& (p[0] == FocusStep::AttachInput) == (f != w)
            &&& (p.last() == FocusStep::DetachInput) == (f != w)
            &&& p.contains(FocusStep::AttachInput) == (f != w)
            &&& p.contains(FocusStep::SwitchTo) == (f != w)
            &&& ({
                let o: int = if f != w { 1 } else { 0 };
                &&& p[o] == FocusStep::Restore
                &&& p[o + 1] == FocusStep::BringToTop
                &&& p[o + 2] == FocusStep::SetForeground
            })
        }),
{
    let p = focus_plan(f, w);
    if f != w {
        assert(p[1] == FocusStep::Restore);
        assert(p.contains(FocusStep::SwitchTo)) by { assert(p[4] == FocusStep::SwitchTo); }
        assert(p.contains(FocusStep::AttachInput)) by { assert(p[0] == FocusStep::AttachInput); }
    } else {
        assert(p[0] == FocusStep::Restore);
        assert(!p.contains(FocusStep::AttachInput));
        assert(!p.contains(FocusStep::SwitchTo));
    }
}

} // verus!
