use vstd::prelude::*;

use crate::hmi::base::{Consts, HashType};
use crate::hmi::flags::{BitFlags, Flag, group_bit_flags};
use crate::hmi::input::{Input, KeyboardState, MouseState};
use crate::hmi::panel::PanelFlags;
use crate::hmi::window::Window;

verus! {

broadcast use group_bit_flags;

#[derive(Copy, Clone, Debug, PartialEq, Eq, Structural)]
pub enum CollapseStates {
    Minimized,
    Maximized,
}

#[derive(Copy, Clone, Debug, PartialEq, Eq, Structural)]
pub enum ShowStates {
    Hidden,
    Shown,
}

/// A page of key and value pairs kept for a window.
#[derive(Copy, Clone)]
pub struct Table {
    pub seq: u32,
    pub size: u32,
    pub keys: [u32; 48],
    pub values: [u32; 48],
}

/// Where a new window goes in the window list: at the front, drawn first,
/// or at the back, drawn last and on top.
#[derive(Copy, Clone, Debug, PartialEq, Eq)]
pub enum WindowInsertLocation {
    Front,
    Back,
}

// ---------------------------------------------------------------------------
// Window names
// ---------------------------------------------------------------------------

/// The value of `murmurhash64::murmur_hash64a(key, seed)`.
pub uninterp spec fn murmur_hash64a_result(key: Seq<u8>, seed: u64) -> u64;

/// `murmurhash64::murmur_hash64a`: the 64 bit MurmurHash2 of `key` with
/// `seed`, a function of its arguments alone.
#[verifier::external_body]
fn murmur_hash64a(key: &[u8], seed: u64) -> (h: u64)
    ensures
        h == murmur_hash64a_result(key@, seed),
{
    murmurhash64::murmur_hash64a(key, seed)
}

/// The hash that identifies a window name: MurmurHash2 of its UTF-8 bytes
/// with seed 64.
pub open spec fn spec_name_hash(name: Seq<char>) -> u64 {
    murmur_hash64a_result(vstd::utf8::encode_utf8(name), 64)
}

/// The hash of a window name.
pub fn name_hash(name: &str) -> (h: HashType)
    ensures
        h == spec_name_hash(name@),
{
    murmur_hash64a(name.as_bytes(), 64)
}

// ---------------------------------------------------------------------------
// Window options
// ---------------------------------------------------------------------------

pub open spec fn rom_bit() -> u32 {
    0x1000
}

pub open spec fn dynamic_bit() -> u32 {
    0x800
}

pub open spec fn hidden_bit() -> u32 {
    0x2000
}

pub open spec fn closed_bit() -> u32 {
    0x4000
}

pub open spec fn minimized_bit() -> u32 {
    0x8000
}

/// The options that keep a window's contents from being shown: hidden,
/// closed, minimized.
pub open spec fn shown_mask() -> u32 {
    0xE000
}

proof fn lemma_shown_mask()
    ensures
        0x2000u32 | 0x4000u32 | 0x8000u32 == shown_mask(),
{
    assert(0x2000u32 | 0x4000u32 | 0x8000u32 == 0xE000u32) by (bit_vector);
}

pub open spec fn background_bit() -> u32 {
    0x100
}

/// The window has the option `bit`.
pub open spec fn has_bit(w: Window, bit: u32) -> bool {
    w.flags.view_bits() & bit != 0
}

/// The window with its options replaced by `bits`.
pub open spec fn with_bits(w: Window, bits: u32) -> Window {
    Window { flags: BitFlags::spec_from_bits(bits), ..w }
}

/// The window without the read only option.
pub open spec fn without_rom(w: Window) -> Window {
    with_bits(w, w.flags.view_bits() & !rom_bit())
}

/// The window with the read only option.
pub open spec fn with_rom(w: Window) -> Window {
    with_bits(w, w.flags.view_bits() | rom_bit())
}

/// The window's name is `name`, whose hash is `hash`.
pub open spec fn name_matches(w: Window, hash: u64, name: Seq<char>) -> bool {
    w.id.name == hash && w.id.name_str@ == name
}

/// The first window at or after `i` with the given name.
pub open spec fn find_name_from(ws: Seq<Window>, hash: u64, name: Seq<char>, i: int) -> Option<int>
    decreases ws.len() - i,
{
    if i < 0 || i >= ws.len() {
        None
    } else if name_matches(ws[i], hash, name) {
        Some(i)
    } else {
        find_name_from(ws, hash, name, i + 1)
    }
}

/// The first window with the given name.
pub open spec fn find_name(ws: Seq<Window>, hash: u64, name: Seq<char>) -> Option<int> {
    find_name_from(ws, hash, name, 0)
}

/// The position of the window with the given handle.
pub open spec fn find_handle_from(ws: Seq<Window>, handle: usize, i: int) -> Option<int>
    decreases ws.len() - i,
{
    if i < 0 || i >= ws.len() {
        None
    } else if ws[i].id.handle == handle {
        Some(i)
    } else {
        find_handle_from(ws, handle, i + 1)
    }
}

pub open spec fn find_handle(ws: Seq<Window>, handle: usize) -> Option<int> {
    find_handle_from(ws, handle, 0)
}

/// Some window has the handle.
pub open spec fn contains_handle(ws: Seq<Window>, h: usize) -> bool {
    exists|i: int| 0 <= i < ws.len() && (#[trigger] ws[i]).id.handle == h
}

/// No two windows share a handle.
pub open spec fn unique_handles(ws: Seq<Window>) -> bool {
    forall|i: int, j: int| 0 <= i < ws.len() && 0 <= j < ws.len() && i != j ==> ws[i].id.handle != ws[j].id.handle
}

proof fn lemma_find_name_from_props(ws: Seq<Window>, hash: u64, name: Seq<char>, i: int)
    requires
        0 <= i,
    ensures
        find_name_from(ws, hash, name, i) matches Some(k) ==> i <= k < ws.len() && name_matches(ws[k], hash, name),
        find_name_from(ws, hash, name, i) is None ==> forall|k: int| i <= k < ws.len() ==> !name_matches(#[trigger] ws[k], hash, name),
    decreases ws.len() - i,
{
    if i < ws.len() && !name_matches(ws[i], hash, name) {
        lemma_find_name_from_props(ws, hash, name, i + 1);
    }
}

proof fn lemma_find_handle_from_props(ws: Seq<Window>, handle: usize, i: int)
    requires
        0 <= i,
    ensures
        find_handle_from(ws, handle, i) matches Some(k) ==> i <= k < ws.len() && ws[k].id.handle == handle,
        find_handle_from(ws, handle, i) is None ==> forall|k: int| i <= k < ws.len() ==> (#[trigger] ws[k]).id.handle != handle,
    decreases ws.len() - i,
{
    if i < ws.len() && ws[i].id.handle != handle {
        lemma_find_handle_from_props(ws, handle, i + 1);
    }
}

/// With unique handles, the window found for a handle is the one that has it.
proof fn lemma_find_handle_unique(ws: Seq<Window>, handle: usize, k: int)
    requires
        unique_handles(ws),
        0 <= k < ws.len(),
        ws[k].id.handle == handle,
    ensures
        find_handle(ws, handle) == Some(k),
{
    lemma_find_handle_from_props(ws, handle, 0);
    if let Some(j) = find_handle(ws, handle) {
        assert(j == k);
    }
}

/// A window described by a fresh window's fields.
pub open spec fn is_new_window(w: Window, handle: usize, hash: u64, name: Seq<char>, bits: u32) -> bool {
    &&& w.id.handle == handle
    &&& w.id.name == hash
    &&& w.id.name_str@ == name
    &&& w.seq == 0
    &&& w.flags.view_bits() == bits
    &&& w.popup == crate::hmi::panel::PopupBuffer::spec_default()
    &&& !w.killed
}

/// Taking the read only option away and giving it back is giving it.
proof fn lemma_rom_twice(w: Window)
    ensures
        with_rom(without_rom(w)) == with_rom(w),
{
    let b = w.flags.view_bits();
    assert((b & !0x1000u32) | 0x1000u32 == b | 0x1000u32) by (bit_vector);
}

/// A window that is kept at the end of a frame: it was used this frame
/// and is not closed.
pub open spec fn keeps_window(w: Window, s: u32) -> bool {
    w.seq == s && !has_bit(w, closed_bit())
}

/// The windows kept at the end of frame `s`, in order.
pub open spec fn kept_windows(ws: Seq<Window>, s: u32) -> Seq<Window>
    decreases ws.len(),
{
    if ws.len() == 0 {
        ws
    } else {
        let k = kept_windows(ws.drop_last(), s);
        if keeps_window(ws.last(), s) {
            k.push(ws.last())
        } else {
            k
        }
    }
}

/// One window of the end of frame walk: `k` holds the windows kept so far
/// and `act` the active window. A minimized open window used this frame is
/// kept as it is. Otherwise a hidden or closed active window hands the focus
/// to the last window kept so far, which loses its read only option (or
/// leaves no active window); then the window is kept or dropped.
pub open spec fn clear_step(k: Seq<Window>, act: Option<usize>, w: Window, s: u32) -> (
    Seq<Window>,
    Option<usize>,
) {
    if has_bit(w, minimized_bit()) && !has_bit(w, closed_bit()) && w.seq == s {
        (k.push(w), act)
    } else {
        let (k2, act2) = if (has_bit(w, hidden_bit()) || has_bit(w, closed_bit())) && act == Some(
            w.id.handle,
        ) {
            if k.len() > 0 {
                (k.update(k.len() - 1, without_rom(k.last())), Some(k.last().id.handle))
            } else {
                (k, None::<usize>)
            }
        } else {
            (k, act)
        };
        if keeps_window(w, s) {
            (k2.push(w), act2)
        } else {
            (k2, act2)
        }
    }
}

/// The end of frame walk over the first `i` windows.
pub open spec fn clear_prefix(ws: Seq<Window>, s: u32, a: Option<usize>, i: nat) -> (
    Seq<Window>,
    Option<usize>,
)
    decreases i,
{
    if i == 0 || i > ws.len() {
        (Seq::<Window>::empty(), a)
    } else {
        let p = clear_prefix(ws, s, a, (i - 1) as nat);
        clear_step(p.0, p.1, ws[i - 1], s)
    }
}

/// The windows and the active window after the end of frame `s`: the walk
/// over all windows, then, when a window was dropped and there is no active
/// window or the active window was dropped, the front window becomes active
/// and loses its read only option.
pub open spec fn clear_result(ws: Seq<Window>, s: u32, a: Option<usize>) -> (Seq<Window>, Option<usize>) {
    let p = clear_prefix(ws, s, a, ws.len());
    let k = p.0;
    let act = p.1;
    let dropped_active = match act {
        Some(h) => !contains_handle(k, h),
        None => true,
    };
    if k.len() < ws.len() && dropped_active {
        if k.len() > 0 {
            (k.update(k.len() - 1, without_rom(k.last())), Some(k.last().id.handle))
        } else {
            (k, None::<usize>)
        }
    } else {
        (k, act)
    }
}

/// The two windows are the same but for the read only option.
pub open spec fn same_but_rom(a: Window, b: Window) -> bool {
    &&& a.id == b.id
    &&& a.seq == b.seq
    &&& a.popup == b.popup
    &&& a.killed == b.killed
    &&& a.flags.view_bits() & !rom_bit() == b.flags.view_bits() & !rom_bit()
}

proof fn lemma_without_rom_same(w: Window)
    ensures
        same_but_rom(without_rom(w), w),
{
    let b = w.flags.view_bits();
    assert((b & !0x1000u32) & !0x1000u32 == b & !0x1000u32) by (bit_vector);
}

proof fn lemma_same_but_rom_keeps_closed(a: Window, b: Window)
    requires
        same_but_rom(a, b),
    ensures
        has_bit(a, closed_bit()) == has_bit(b, closed_bit()),
        has_bit(a, hidden_bit()) == has_bit(b, hidden_bit()),
        has_bit(a, minimized_bit()) == has_bit(b, minimized_bit()),
{
    let x = a.flags.view_bits();
    let y = b.flags.view_bits();
    assert(x & !0x1000u32 == y & !0x1000u32 ==> ((x & 0x4000u32 != 0) == (y & 0x4000u32 != 0) && (x
        & 0x2000u32 != 0) == (y & 0x2000u32 != 0) && (x & 0x8000u32 != 0) == (y & 0x8000u32 != 0)))
        by (bit_vector);
}

/// Through the walk, the windows kept so far are those `kept_windows` gives,
/// up to their read only options, and the active window is one of the
/// windows.
proof fn lemma_clear_prefix(ws: Seq<Window>, s: u32, a: Option<usize>, i: nat)
    requires
        i <= ws.len(),
        a matches Some(h) ==> contains_handle(ws, h),
    ensures
        ({
            let p = clear_prefix(ws, s, a, i);
            let kw = kept_windows(ws.take(i as int), s);
            &&& p.0.len() == kw.len()
            &&& forall|j: int| 0 <= j < p.0.len() ==> same_but_rom(#[trigger] p.0[j], kw[j])
            &&& p.1 matches Some(h) ==> contains_handle(ws, h)
        }),
    decreases i,
{
    if i > 0 {
        lemma_clear_prefix(ws, s, a, (i - 1) as nat);
        let p = clear_prefix(ws, s, a, (i - 1) as nat);
        let kw = kept_windows(ws.take(i - 1), s);
        assert(ws.take(i as int).drop_last() =~= ws.take(i - 1));
        let w = ws[i - 1];
        let q = clear_step(p.0, p.1, w, s);
        let kw2 = kept_windows(ws.take(i as int), s);
        if p.0.len() > 0 {
            lemma_without_rom_same(p.0.last());
        }
        assert forall|j: int| 0 <= j < q.0.len() implies same_but_rom(#[trigger] q.0[j], kw2[j]) by {
            if j < p.0.len() {
                assert(same_but_rom(p.0[j], kw[j]));
                if p.0.len() > 0 && j == p.0.len() - 1 {
                    lemma_without_rom_same(p.0[j]);
                }
            }
        }
        if let Some(h) = q.1 {
            if q.1 != p.1 {
                let kj = p.0.len() - 1;
                assert(same_but_rom(p.0[kj], kw[kj]));
                lemma_kept_windows_from(ws.take(i - 1), s, kj);
                let t = choose|t: int| 0 <= t < ws.take(i - 1).len() && #[trigger] ws.take(i - 1)[t] == kw[kj];
                assert(ws[t] == kw[kj]);
            }
        }
    }
}

/// Every kept window is one of the windows, and is kept.
proof fn lemma_kept_windows_from(ws: Seq<Window>, s: u32, j: int)
    requires
        0 <= j < kept_windows(ws, s).len(),
    ensures
        exists|t: int| 0 <= t < ws.len() && #[trigger] ws[t] == kept_windows(ws, s)[j],
        keeps_window(kept_windows(ws, s)[j], s),
    decreases ws.len(),
{
    let k = kept_windows(ws.drop_last(), s);
    if j < k.len() {
        lemma_kept_windows_from(ws.drop_last(), s, j);
        let t = choose|t: int| 0 <= t < ws.drop_last().len() && #[trigger] ws.drop_last()[t] == k[j];
        assert(ws[t] == k[j]);
    } else {
        assert(ws[ws.len() - 1] == kept_windows(ws, s)[j]);
    }
}

/// The kept windows keep their order and are at most all windows.
proof fn lemma_kept_windows_len(ws: Seq<Window>, s: u32)
    ensures
        kept_windows(ws, s).len() <= ws.len(),
        kept_windows(ws, s).len() == ws.len() ==> kept_windows(ws, s) == ws,
    decreases ws.len(),
{
    if ws.len() > 0 {
        lemma_kept_windows_len(ws.drop_last(), s);
        if kept_windows(ws, s).len() == ws.len() {
            assert(kept_windows(ws, s) =~= ws);
        }
    }
}

/// The kept windows of distinct windows are distinct.
proof fn lemma_kept_windows_unique(ws: Seq<Window>, s: u32)
    requires
        unique_handles(ws),
    ensures
        unique_handles(kept_windows(ws, s)),
    decreases ws.len(),
{
    if ws.len() > 0 {
        let d = ws.drop_last();
        assert(unique_handles(d)) by {
            assert forall|a: int, b: int| 0 <= a < d.len() && 0 <= b < d.len() && a != b implies d[a].id.handle
                != d[b].id.handle by {
                assert(d[a] == ws[a]);
                assert(d[b] == ws[b]);
            }
        }
        lemma_kept_windows_unique(d, s);
        let k = kept_windows(d, s);
        if keeps_window(ws.last(), s) {
            let k2 = k.push(ws.last());
            assert forall|a: int, b: int| 0 <= a < k2.len() && 0 <= b < k2.len() && a != b implies k2[a].id.handle
                != k2[b].id.handle by {
                if a < k.len() && b < k.len() {
                } else if a < k.len() {
                    lemma_kept_windows_from(d, s, a);
                    let t = choose|t: int| 0 <= t < d.len() && #[trigger] d[t] == k[a];
                    assert(d[t] == ws[t]);
                } else if b < k.len() {
                    lemma_kept_windows_from(d, s, b);
                    let t = choose|t: int| 0 <= t < d.len() && #[trigger] d[t] == k[b];
                    assert(d[t] == ws[t]);
                }
            }
        }
    }
}

/// At the end of a frame exactly the windows used this frame and not closed
/// stay, in their order and unchanged but for their read only options; and
/// the active window, if any, is one of them.
pub proof fn lemma_clear_result(ws: Seq<Window>, s: u32, a: Option<usize>)
    requires
        unique_handles(ws),
        a matches Some(h) ==> contains_handle(ws, h),
    ensures
        ({
            let r = clear_result(ws, s, a);
            let kw = kept_windows(ws, s);
            &&& r.0.len() == kw.len()
            &&& forall|j: int| 0 <= j < r.0.len() ==> same_but_rom(#[trigger] r.0[j], kw[j])
            &&& forall|j: int| 0 <= j < r.0.len() ==> keeps_window(#[trigger] r.0[j], s)
            &&& unique_handles(r.0)
            &&& r.1 matches Some(h) ==> contains_handle(r.0, h)
        }),
{
    lemma_clear_prefix(ws, s, a, ws.len());
    assert(ws.take(ws.len() as int) =~= ws);
    let p = clear_prefix(ws, s, a, ws.len());
    let kw = kept_windows(ws, s);
    let r = clear_result(ws, s, a);
    lemma_kept_windows_unique(ws, s);
    lemma_kept_windows_len(ws, s);
    if p.0.len() > 0 {
        lemma_without_rom_same(p.0.last());
    }
    assert forall|j: int| 0 <= j < r.0.len() implies same_but_rom(#[trigger] r.0[j], kw[j]) by {
        assert(same_but_rom(p.0[j], kw[j]));
        if p.0.len() > 0 && j == p.0.len() - 1 {
            lemma_without_rom_same(p.0[j]);
        }
    }
    assert forall|j: int| 0 <= j < r.0.len() implies keeps_window(#[trigger] r.0[j], s) by {
        lemma_kept_windows_from(ws, s, j);
        lemma_same_but_rom_keeps_closed(r.0[j], kw[j]);
    }
    assert forall|x: int, y: int| 0 <= x < r.0.len() && 0 <= y < r.0.len() && x != y implies r.0[x].id.handle
        != r.0[y].id.handle by {
        assert(same_but_rom(r.0[x], kw[x]));
        assert(same_but_rom(r.0[y], kw[y]));
    }
    let dropped_active = match p.1 {
        Some(h) => !contains_handle(p.0, h),
        None => true,
    };
    if p.0.len() < ws.len() && dropped_active {
        if p.0.len() > 0 {
            assert(r.0[r.0.len() - 1].id.handle == p.0.last().id.handle);
            assert(contains_handle(r.0, r.0[r.0.len() - 1].id.handle));
        }
    } else {
        assert(r.0 == p.0);
        if let Some(h) = p.1 {
            if p.0.len() >= ws.len() {
                assert(kw == ws);
                let t = choose|t: int| 0 <= t < ws.len() && (#[trigger] ws[t]).id.handle == h;
                assert(same_but_rom(p.0[t], kw[t]));
                assert(contains_handle(p.0, h));
            }
        }
    }
}

/// While no window visited so far is the active window hidden or closed, the
/// end of frame walk keeps the active window.
proof fn lemma_clear_prefix_keeps_active(ws: Seq<Window>, s: u32, a: Option<usize>, i: nat)
    requires
        i <= ws.len(),
        forall|j: int|
            0 <= j < i && a == Some(#[trigger] ws[j].id.handle) ==> !has_bit(ws[j], hidden_bit())
                && !has_bit(ws[j], closed_bit()),
    ensures
        clear_prefix(ws, s, a, i).1 == a,
    decreases i,
{
    if i > 0 {
        lemma_clear_prefix_keeps_active(ws, s, a, (i - 1) as nat);
        let w = ws[i - 1];
        assert(a == Some(w.id.handle) ==> !has_bit(w, hidden_bit()) && !has_bit(w, closed_bit()));
    }
}

/// Once the walk has handed the focus to the window `w0` at place `m`, the
/// later windows, none of which has its handle, leave both as they are.
proof fn lemma_clear_prefix_focus_stable(
    ws: Seq<Window>,
    s: u32,
    a: Option<usize>,
    t: int,
    i: nat,
    m: int,
    w0: Window,
)
    requires
        0 <= t,
        t < i <= ws.len(),
        clear_prefix(ws, s, a, (t + 1) as nat).1 == Some(w0.id.handle),
        0 <= m < clear_prefix(ws, s, a, (t + 1) as nat).0.len(),
        clear_prefix(ws, s, a, (t + 1) as nat).0[m] == w0,
        forall|j: int| t < j < ws.len() ==> (#[trigger] ws[j]).id.handle != w0.id.handle,
    ensures
        clear_prefix(ws, s, a, i).1 == Some(w0.id.handle),
        m < clear_prefix(ws, s, a, i).0.len(),
        clear_prefix(ws, s, a, i).0[m] == w0,
    decreases i,
{
    if i > t + 1 {
        lemma_clear_prefix_focus_stable(ws, s, a, t, (i - 1) as nat, m, w0);
        assert(ws[i - 1].id.handle != w0.id.handle);
    }
}

/// A window without the read only option does not have it.
proof fn lemma_without_rom_clears(w: Window)
    ensures
        !has_bit(without_rom(w), rom_bit()),
        without_rom(w).id == w.id,
{
    let b = w.flags.view_bits();
    assert((b & !0x1000u32) & 0x1000u32 == 0) by (bit_vector);
}

/// At the end of a frame in which some window goes unused and at least one
/// is kept, when there was no active window, or the active window is one of
/// those unused this frame (neither hidden nor closed), the front window
/// that remains becomes the active window and is no longer read only.
pub proof fn lemma_clear_focus_to_front(ws: Seq<Window>, s: u32, a: Option<usize>)
    requires
        unique_handles(ws),
        0 < kept_windows(ws, s).len() < ws.len(),
        a matches Some(h) ==> exists|t: int|
            0 <= t < ws.len() && (#[trigger] ws[t]).id.handle == h && ws[t].seq != s && !has_bit(
                ws[t],
                hidden_bit(),
            ) && !has_bit(ws[t], closed_bit()),
    ensures
        ({
            let r = clear_result(ws, s, a);
            &&& r.0.len() > 0
            &&& r.1 == Some(r.0.last().id.handle)
            &&& !has_bit(r.0.last(), rom_bit())
        }),
{
    let n = ws.len();
    if let Some(h) = a {
        let t = choose|t: int|
            0 <= t < ws.len() && (#[trigger] ws[t]).id.handle == h && ws[t].seq != s && !has_bit(
                ws[t],
                hidden_bit(),
            ) && !has_bit(ws[t], closed_bit());
        assert forall|j: int| 0 <= j < n && a == Some(#[trigger] ws[j].id.handle) implies !has_bit(
            ws[j],
            hidden_bit(),
        ) && !has_bit(ws[j], closed_bit()) by {
            if j != t {
                assert(ws[j].id.handle != ws[t].id.handle);
            }
        }
        assert(contains_handle(ws, h));
    }
    lemma_clear_prefix_keeps_active(ws, s, a, n);
    lemma_clear_prefix(ws, s, a, n);
    assert(ws.take(n as int) =~= ws);
    let p = clear_prefix(ws, s, a, n);
    let kw = kept_windows(ws, s);
    if let Some(h) = a {
        let t = choose|t: int|
            0 <= t < ws.len() && (#[trigger] ws[t]).id.handle == h && ws[t].seq != s && !has_bit(
                ws[t],
                hidden_bit(),
            ) && !has_bit(ws[t], closed_bit());
        if contains_handle(p.0, h) {
            let j = choose|j: int| 0 <= j < p.0.len() && (#[trigger] p.0[j]).id.handle == h;
            assert(same_but_rom(p.0[j], kw[j]));
            lemma_kept_windows_from(ws, s, j);
            let u = choose|u: int| 0 <= u < ws.len() && #[trigger] ws[u] == kw[j];
            if u != t {
                assert(ws[u].id.handle != ws[t].id.handle);
            }
            assert(false);
        }
    }
    lemma_without_rom_clears(p.0.last());
}

/// When the active window is closed, the focus goes to the last window kept
/// before it, which is no longer read only.
pub proof fn lemma_clear_focus_from_closed(ws: Seq<Window>, s: u32, t: int)
    requires
        unique_handles(ws),
        0 <= t < ws.len(),
        has_bit(ws[t], closed_bit()),
        kept_windows(ws.take(t), s).len() > 0,
    ensures
        ({
            let before = kept_windows(ws.take(t), s);
            let m = before.len() - 1;
            let r = clear_result(ws, s, Some(ws[t].id.handle));
            &&& r.1 == Some(before.last().id.handle)
            &&& m < r.0.len()
            &&& r.0[m].id.handle == before.last().id.handle
            &&& !has_bit(r.0[m], rom_bit())
        }),
{
    let n = ws.len();
    let a = Some(ws[t].id.handle);
    assert forall|j: int| 0 <= j < t && a == Some(#[trigger] ws[j].id.handle) implies !has_bit(
        ws[j],
        hidden_bit(),
    ) && !has_bit(ws[j], closed_bit()) by {
        assert(ws[j].id.handle != ws[t].id.handle);
    }
    assert(contains_handle(ws, ws[t].id.handle));
    lemma_clear_prefix_keeps_active(ws, s, a, t as nat);
    lemma_clear_prefix(ws, s, a, t as nat);
    let before = kept_windows(ws.take(t), s);
    let m = before.len() - 1;
    let pt = clear_prefix(ws, s, a, t as nat);
    assert(same_but_rom(pt.0[m], before[m]));
    let w0 = without_rom(pt.0.last());
    lemma_without_rom_clears(pt.0.last());
    assert(clear_prefix(ws, s, a, (t + 1) as nat) == clear_step(pt.0, pt.1, ws[t], s));
    assert(clear_prefix(ws, s, a, (t + 1) as nat).0[m] == w0);
    lemma_kept_windows_from(ws.take(t), s, m);
    let u = choose|u: int| 0 <= u < ws.take(t).len() && #[trigger] ws.take(t)[u] == before[m];
    assert(ws[u] == before[m]);
    assert forall|j: int| t < j < ws.len() implies (#[trigger] ws[j]).id.handle != w0.id.handle by {
        assert(ws[j].id.handle != ws[u].id.handle);
    }
    lemma_clear_prefix_focus_stable(ws, s, a, t, n, m, w0);
    let p = clear_prefix(ws, s, a, n);
    assert(p.0[m].id.handle == w0.id.handle);
    assert(contains_handle(p.0, w0.id.handle));
}

/// Every window that is kept at the end of a frame is among the kept windows.
proof fn lemma_kept_windows_contains(ws: Seq<Window>, s: u32, t: int)
    requires
        0 <= t < ws.len(),
        keeps_window(ws[t], s),
    ensures
        exists|j: int| 0 <= j < kept_windows(ws, s).len() && #[trigger] kept_windows(ws, s)[j] == ws[t],
    decreases ws.len(),
{
    let k = kept_windows(ws.drop_last(), s);
    if t == ws.len() - 1 {
        assert(kept_windows(ws, s)[k.len() as int] == ws[t]);
    } else {
        lemma_kept_windows_contains(ws.drop_last(), s, t);
        let j = choose|j: int| 0 <= j < k.len() && #[trigger] k[j] == ws.drop_last()[t];
        assert(kept_windows(ws, s)[j] == ws[t]);
    }
}

/// At the end of a frame exactly the windows used this frame and not closed
/// remain, in their order; the others are dropped.
pub proof fn lemma_clear_keeps_used_windows(ws: Seq<Window>, s: u32, a: Option<usize>, t: int)
    requires
        unique_handles(ws),
        a matches Some(h) ==> contains_handle(ws, h),
        0 <= t < ws.len(),
    ensures
        contains_handle(clear_result(ws, s, a).0, ws[t].id.handle) == (ws[t].seq == s && !has_bit(
            ws[t],
            closed_bit(),
        )),
{
    lemma_clear_result(ws, s, a);
    let r = clear_result(ws, s, a);
    let kw = kept_windows(ws, s);
    if ws[t].seq == s && !has_bit(ws[t], closed_bit()) {
        lemma_kept_windows_contains(ws, s, t);
        let j = choose|j: int| 0 <= j < kw.len() && #[trigger] kw[j] == ws[t];
        assert(same_but_rom(r.0[j], kw[j]));
        assert(r.0[j].id.handle == ws[t].id.handle);
    }
    if contains_handle(r.0, ws[t].id.handle) {
        let j = choose|j: int| 0 <= j < r.0.len() && (#[trigger] r.0[j]).id.handle == ws[t].id.handle;
        assert(same_but_rom(r.0[j], kw[j]));
        lemma_kept_windows_from(ws, s, j);
        let u = choose|u: int| 0 <= u < ws.len() && #[trigger] ws[u] == kw[j];
        if u != t {
            assert(ws[u].id.handle != ws[t].id.handle);
        }
    }
}

/// An active window used this frame, neither hidden nor closed, stays the
/// active window at the end of the frame.
pub proof fn lemma_clear_keeps_focus(ws: Seq<Window>, s: u32, t: int)
    requires
        unique_handles(ws),
        0 <= t < ws.len(),
        ws[t].seq == s,
        !has_bit(ws[t], hidden_bit()),
        !has_bit(ws[t], closed_bit()),
    ensures
        clear_result(ws, s, Some(ws[t].id.handle)).1 == Some(ws[t].id.handle),
{
    let n = ws.len();
    let a = Some(ws[t].id.handle);
    assert forall|j: int| 0 <= j < n && a == Some(#[trigger] ws[j].id.handle) implies !has_bit(
        ws[j],
        hidden_bit(),
    ) && !has_bit(ws[j], closed_bit()) by {
        if j != t {
            assert(ws[j].id.handle != ws[t].id.handle);
        }
    }
    assert(contains_handle(ws, ws[t].id.handle));
    lemma_clear_prefix_keeps_active(ws, s, a, n);
    lemma_clear_prefix(ws, s, a, n);
    assert(ws.take(n as int) =~= ws);
    let p = clear_prefix(ws, s, a, n);
    let kw = kept_windows(ws, s);
    lemma_kept_windows_contains(ws, s, t);
    let j = choose|j: int| 0 <= j < kw.len() && #[trigger] kw[j] == ws[t];
    assert(same_but_rom(p.0[j], kw[j]));
    assert(contains_handle(p.0, ws[t].id.handle));
}

/// The windows that remain at the end of a frame keep the order they had.
pub proof fn lemma_clear_keeps_order(ws: Seq<Window>, s: u32, a: Option<usize>, j: int, l: int)
    requires
        unique_handles(ws),
        a matches Some(h) ==> contains_handle(ws, h),
        0 <= j < l < clear_result(ws, s, a).0.len(),
    ensures
        exists|x: int, y: int|
            0 <= x < y < ws.len() && (#[trigger] ws[x]).id == clear_result(ws, s, a).0[j].id && (
            #[trigger] ws[y]).id == clear_result(ws, s, a).0[l].id,
{
    lemma_clear_result(ws, s, a);
    let r = clear_result(ws, s, a);
    let kw = kept_windows(ws, s);
    lemma_kept_windows_order(ws, s, j, l);
    assert(same_but_rom(r.0[j], kw[j]));
    assert(same_but_rom(r.0[l], kw[l]));
    let (x, y) = choose|x: int, y: int| 0 <= x < y < ws.len() && ws[x] == kw[j] && ws[y] == kw[l];
    assert(ws[x].id == r.0[j].id && ws[y].id == r.0[l].id);
}

/// The kept windows keep the order they had.
proof fn lemma_kept_windows_order(ws: Seq<Window>, s: u32, j: int, l: int)
    requires
        0 <= j < l < kept_windows(ws, s).len(),
    ensures
        exists|x: int, y: int|
            0 <= x < y < ws.len() && ws[x] == kept_windows(ws, s)[j] && ws[y] == kept_windows(ws, s)[l],
    decreases ws.len(),
{
    let d = ws.drop_last();
    let k = kept_windows(d, s);
    if l < k.len() {
        lemma_kept_windows_order(d, s, j, l);
        let (x, y) = choose|x: int, y: int| 0 <= x < y < d.len() && d[x] == k[j] && d[y] == k[l];
        assert(ws[x] == d[x] && ws[y] == d[y]);
    } else {
        lemma_kept_windows_from(d, s, j);
        let x = choose|x: int| 0 <= x < d.len() && #[trigger] d[x] == k[j];
        assert(ws[x] == d[x]);
        assert(kept_windows(ws, s)[l] == ws[ws.len() - 1]);
    }
}

proof fn lemma_or_assoc(a: u32, b: u32, c: u32)
    ensures
        a | (b | c) == a | b | c,
{
    assert(a | (b | c) == a | b | c) by (bit_vector);
}

proof fn lemma_find_name_same_ids(ws: Seq<Window>, ws2: Seq<Window>, hash: u64, name: Seq<char>, j: int)
    requires
        ws.len() == ws2.len(),
        forall|k: int| 0 <= k < ws.len() ==> (#[trigger] ws2[k]).id == ws[k].id,
        0 <= j,
    ensures
        find_name_from(ws2, hash, name, j) == find_name_from(ws, hash, name, j),
    decreases ws.len() - j,
{
    if j < ws.len() {
        assert(ws2[j].id == ws[j].id);
        lemma_find_name_same_ids(ws, ws2, hash, name, j + 1);
    }
}

proof fn lemma_find_name_first(ws: Seq<Window>, hash: u64, name: Seq<char>, i: int, j: int)
    requires
        0 <= j <= i < ws.len(),
        name_matches(ws[i], hash, name),
        forall|k: int| 0 <= k < i ==> !name_matches(#[trigger] ws[k], hash, name),
    ensures
        find_name_from(ws, hash, name, j) == Some(i),
    decreases i - j,
{
    if j < i {
        assert(!name_matches(ws[j], hash, name));
        lemma_find_name_first(ws, hash, name, i, j + 1);
    }
}

/// Changing the options of a window does not change which window a name
/// finds.
pub proof fn lemma_options_keep_names(ws: Seq<Window>, i: int, bits: u32, hash: u64, name: Seq<char>)
    requires
        0 <= i < ws.len(),
    ensures
        find_name(ws.update(i, with_bits(ws[i], bits)), hash, name) == find_name(ws, hash, name),
{
    lemma_find_name_same_ids(ws, ws.update(i, with_bits(ws[i], bits)), hash, name, 0);
}

/// An option set on, or off, on the window a name finds reads back as set,
/// or not: what `window_collapse` sets, `window_is_collapsed` reports, and
/// what `window_show` and `window_close` set, `window_is_hidden` and
/// `window_is_closed` report.
pub proof fn lemma_option_read_back(ws: Seq<Window>, hash: u64, name: Seq<char>, bits: u32, bit: u32, on: bool)
    requires
        find_name(ws, hash, name) is Some,
        bit != 0,
        on ==> bits & bit == bit,
        !on ==> bits & bit == 0,
    ensures
        ({
            let i = find_name(ws, hash, name)->0;
            let ws2 = ws.update(i, with_bits(ws[i], bits));
            find_name(ws2, hash, name) == Some(i) && has_bit(ws2[i], bit) == on
        }),
{
    let i = find_name(ws, hash, name)->0;
    lemma_find_name_from_props(ws, hash, name, 0);
    lemma_options_keep_names(ws, i, bits, hash, name);
    if on {
        assert(bits & bit == bit && bit != 0 ==> bits & bit != 0) by (bit_vector);
    }
}

/// The bits of the option changes that `window_collapse`, `window_show`
/// and `window_close` make.
pub proof fn lemma_option_bits(x: u32)
    ensures
        (x | minimized_bit()) & minimized_bit() == minimized_bit(),
        (x & !minimized_bit()) & minimized_bit() == 0,
        (x | hidden_bit()) & hidden_bit() == hidden_bit(),
        (x & !hidden_bit()) & hidden_bit() == 0,
        (x | hidden_bit() | closed_bit()) & hidden_bit() == hidden_bit(),
        (x | hidden_bit() | closed_bit()) & closed_bit() == closed_bit(),
{
    assert((x | 0x8000u32) & 0x8000u32 == 0x8000u32) by (bit_vector);
    assert((x & !0x8000u32) & 0x8000u32 == 0) by (bit_vector);
    assert((x | 0x2000u32) & 0x2000u32 == 0x2000u32) by (bit_vector);
    assert((x & !0x2000u32) & 0x2000u32 == 0) by (bit_vector);
    assert((x | 0x2000u32 | 0x4000u32) & 0x2000u32 == 0x2000u32) by (bit_vector);
    assert((x | 0x2000u32 | 0x4000u32) & 0x4000u32 == 0x4000u32) by (bit_vector);
}

/// Some window of `ws` has the handle `h`.
fn contains_window_handle(ws: &Vec<Window>, h: usize) -> (b: bool)
    ensures
        b == contains_handle(ws@, h),
{
    let mut i: usize = 0;
    while i < ws.len()
        invariant
            i <= ws@.len(),
            forall|k: int| 0 <= k < i ==> (#[trigger] ws@[k]).id.handle != h,
        decreases ws@.len() - i,
    {
        if ws[i].id.handle == h {
            return true;
        }
        i = i + 1;
    }
    false
}

/// The handles of the windows among the first `n` that are drawn in frame
/// `s`, in drawing order: those with draw commands (`has_commands[i]` for
/// the window at position `i`), not hidden and used in that frame.
pub open spec fn drawn_handles(ws: Seq<Window>, s: u32, has_commands: Seq<bool>, n: nat) -> Seq<usize>
    decreases n,
{
    if n == 0 || n > ws.len() {
        Seq::empty()
    } else {
        let rest = drawn_handles(ws, s, has_commands, (n - 1) as nat);
        let w = ws[n - 1];
        if has_commands[n - 1] && !has_bit(w, hidden_bit()) && w.seq == s {
            rest.push(w.id.handle)
        } else {
            rest
        }
    }
}

/// Where the mouse is with respect to a window: over its bounds, over its
/// header, over its popup. The bounds are floating point, so the caller
/// makes these tests.
#[derive(Copy, Clone, Debug, PartialEq, Eq)]
pub struct WindowHover {
    pub bounds: bool,
    pub header: bool,
    pub popup: bool,
}

/// The mouse is over the window: over its active popup, or, for a window
/// that is not hidden, over its header when it is minimized and over its
/// bounds otherwise.
pub open spec fn window_hovered(w: Window, h: WindowHover) -> bool {
    &&& !has_bit(w, hidden_bit())
    &&& {
        ||| w.popup.active && h.popup
        ||| if has_bit(w, minimized_bit()) {
            h.header
        } else {
            h.bounds
        }
    }
}

// ---------------------------------------------------------------------------
// The context
// ---------------------------------------------------------------------------

/// The state of the user interface: the input, the windows from back to
/// front, the active window (the one with focus) and the window being built.
pub struct UiContext {
    input: Input,
    windows: Vec<Window>,
    active_win: Option<usize>,
    current_win: Option<usize>,
    seq: u32,
    win_handle_seq: usize,
}

impl UiContext {
    /// The user's input.
    pub closed spec fn input_view(&self) -> Input {
        self.input
    }

    /// The windows, from back to front.
    pub closed spec fn windows_view(&self) -> Seq<Window> {
        self.windows@
    }

    /// The handle of the active window.
    pub closed spec fn active_view(&self) -> Option<usize> {
        self.active_win
    }

    /// The handle of the window being built.
    pub closed spec fn current_view(&self) -> Option<usize> {
        self.current_win
    }

    /// The number of the current frame.
    pub closed spec fn seq_view(&self) -> u32 {
        self.seq
    }

    /// The next window handle to hand out.
    pub closed spec fn next_handle_view(&self) -> usize {
        self.win_handle_seq
    }

    /// The window list's invariant: handles are unique, and the active
    /// window is in the list.
    pub open spec fn windows_wf(&self) -> bool {
        &&& unique_handles(self.windows_view())
        &&& self.active_view() matches Some(h) ==> contains_handle(self.windows_view(), h)
    }

    /// The context's invariant: the window list's invariant, and every handle
    /// in the list was handed out.
    pub open spec fn wf(&self) -> bool {
        &&& self.windows_wf()
        &&& forall|i: int|
            0 <= i < self.windows_view().len() ==> (#[trigger] self.windows_view()[i]).id.handle
                < self.next_handle_view()
    }

    /// A context with no window.
    pub fn new() -> (c: UiContext)
        ensures
            c.wf(),
            c.windows_view() == Seq::<Window>::empty(),
            c.active_view() is None,
            c.current_view() is None,
            c.seq_view() == 0,
            c.next_handle_view() == 0,
            c.input_view().wf(),
            c.input_view().keyboard == KeyboardState::spec_new(),
            c.input_view().mouse == MouseState::spec_new(),
    {
        UiContext {
            input: Input::new(),
            windows: Vec::new(),
            active_win: None,
            current_win: None,
            seq: 0,
            win_handle_seq: 0,
        }
    }

    /// The user's input.
    pub fn input(&self) -> (i: &Input)
        ensures
            *i == self.input_view(),
    {
        &self.input
    }

    /// The user's input, for the frame's events to be fed in.
    pub fn input_mut(&mut self) -> (i: &mut Input)
        ensures
            *i == old(self).input_view(),
            final(self).input_view() == *final(i),
            final(self).windows_view() == old(self).windows_view(),
            final(self).active_view() == old(self).active_view(),
            final(self).current_view() == old(self).current_view(),
            final(self).seq_view() == old(self).seq_view(),
            final(self).next_handle_view() == old(self).next_handle_view(),
    {
        &mut self.input
    }

    /// The windows, from back to front.
    pub fn windows(&self) -> (s: &[Window])
        ensures
            s@ == self.windows_view(),
    {
        self.windows.as_slice()
    }

    /// The handle of the active window.
    pub fn active_window(&self) -> (a: Option<usize>)
        ensures
            a == self.active_view(),
    {
        self.active_win
    }

    /// The handle of the window being built.
    pub fn current_window(&self) -> (c: Option<usize>)
        ensures
            c == self.current_view(),
    {
        self.current_win
    }

    /// The number of the current frame.
    pub fn frame_seq(&self) -> (s: u32)
        ensures
            s == self.seq_view(),
    {
        self.seq
    }

    /// The windows whose draw commands make up this frame, in drawing
    /// order: `has_commands[i]` tells whether the window at position `i` has
    /// any; a hidden window, or one not used this frame, is left out.
    pub fn build(&self, has_commands: &[bool]) -> (r: Vec<usize>)
        requires
            has_commands@.len() == self.windows_view().len(),
        ensures
            r@ == drawn_handles(self.windows_view(), self.seq_view(), has_commands@, self.windows_view().len()),
    {
        let ghost ws = self.windows@;
        let mut r: Vec<usize> = Vec::new();
        let mut i: usize = 0;
        while i < self.windows.len()
            invariant
                ws == self.windows@,
                has_commands@.len() == ws.len(),
                i <= ws.len(),
                r@ == drawn_handles(ws, self.seq, has_commands@, i as nat),
            decreases ws.len() - i,
        {
            let w = &self.windows[i];
            if has_commands[i] && !w.flags.intersects(BitFlags::from_flag(PanelFlags::WindowHidden))
                && w.seq == self.seq {
                r.push(w.id.handle);
            }
            i = i + 1;
        }
        r
    }

    /// The mouse is over some window; `hovered[i]` holds the tests for the
    /// window at position `i`.
    pub fn window_is_any_hovered(&self, hovered: &[WindowHover]) -> (b: bool)
        requires
            hovered@.len() == self.windows_view().len(),
        ensures
            b == exists|i: int|
                0 <= i < self.windows_view().len() && window_hovered(
                    #[trigger] self.windows_view()[i],
                    hovered@[i],
                ),
    {
        let mut i: usize = 0;
        while i < self.windows.len()
            invariant
                hovered@.len() == self.windows@.len(),
                i <= self.windows@.len(),
                forall|k: int| 0 <= k < i ==> !window_hovered(#[trigger] self.windows@[k], hovered@[k]),
            decreases self.windows@.len() - i,
        {
            let w = &self.windows[i];
            let h = hovered[i];
            let found = if w.flags.intersects(BitFlags::from_flag(PanelFlags::WindowHidden)) {
                false
            } else if w.popup.active && h.popup {
                true
            } else if w.flags.intersects(BitFlags::from_flag(PanelFlags::WindowMinimized)) {
                h.header
            } else {
                h.bounds
            };
            if found {
                assert(window_hovered(self.windows_view()[i as int], hovered@[i as int]));
                return true;
            }
            i = i + 1;
        }
        false
    }

    /// The mouse is over the window being built, which is not hidden;
    /// `bounds_hovered` tells whether the mouse is over its bounds.
    pub fn window_is_hovered(&self, bounds_hovered: bool) -> (b: bool)
        ensures
            b == match self.current_view() {
                Some(h) => match find_handle(self.windows_view(), h) {
                    Some(i) => !has_bit(self.windows_view()[i], hidden_bit()) && bounds_hovered,
                    None => false,
                },
                None => false,
            },
    {
        proof {
            if let Some(h) = self.current_win {
                lemma_find_handle_from_props(self.windows@, h, 0);
            }
        }
        match self.current_win {
            None => false,
            Some(h) => match self.find_window_index_by_handle(h) {
                Some(i) if i < self.windows.len() => !self.windows[i].flags.intersects(
                    BitFlags::from_flag(PanelFlags::WindowHidden),
                ) && bounds_hovered,
                _ => false,
            },
        }
    }

    /// The handle the next new window will get.
    pub fn next_window_handle(&self) -> (h: usize)
        ensures
            h == self.next_handle_view(),
    {
        self.win_handle_seq
    }

    /// Hands out a new window handle.
    fn alloc_win_handle(&mut self) -> (h: usize)
        requires
            old(self).next_handle_view() < usize::MAX,
        ensures
            h == old(self).next_handle_view(),
            final(self).next_handle_view() == old(self).next_handle_view() + 1,
            final(self).windows_view() == old(self).windows_view(),
            final(self).active_view() == old(self).active_view(),
            final(self).current_view() == old(self).current_view(),
            final(self).seq_view() == old(self).seq_view(),
            final(self).input_view() == old(self).input_view(),
    {
        let handle = self.win_handle_seq;
        self.win_handle_seq = self.win_handle_seq + 1;
        handle
    }

    /// The position of the first window named `name`, whose hash is `hash`.
    pub fn find_window(&self, hash: HashType, name: &str) -> (r: Option<usize>)
        ensures
            r matches Some(i) ==> find_name(self.windows_view(), hash, name@) == Some(i as int),
            r is None ==> find_name(self.windows_view(), hash, name@) is None,
    {
        let name_owned = name.to_owned();
        let mut i: usize = 0;
        while i < self.windows.len()
            invariant
                i <= self.windows@.len(),
                name_owned@ == name@,
                find_name(self.windows@, hash, name@) == find_name_from(self.windows@, hash, name@, i as int),
            decreases self.windows@.len() - i,
        {
            if self.windows[i].id.name == hash && self.windows[i].id.name_str == name_owned {
                return Some(i);
            }
            i = i + 1;
        }
        None
    }

    /// The position of the window with handle `handle`.
    fn find_window_index_by_handle(&self, handle: usize) -> (r: Option<usize>)
        ensures
            r matches Some(i) ==> find_handle(self.windows_view(), handle) == Some(i as int),
            r is None ==> find_handle(self.windows_view(), handle) is None,
    {
        let mut i: usize = 0;
        while i < self.windows.len()
            invariant
                i <= self.windows@.len(),
                find_handle(self.windows@, handle) == find_handle_from(self.windows@, handle, i as int),
            decreases self.windows@.len() - i,
        {
            if self.windows[i].id.handle == handle {
                return Some(i);
            }
            i = i + 1;
        }
        None
    }

    /// Adds a window that is not in the list yet; the first window simply
    /// goes in. A window added at the back becomes the active window, and
    /// the window before it becomes read only. The added window is never
    /// read only.
    pub fn insert_window(&mut self, win: Window, loc: WindowInsertLocation)
        requires
            old(self).windows_wf(),
        ensures
            final(self).windows_wf(),
            old(self).wf() && win.id.handle < old(self).next_handle_view() ==> final(self).wf(),
            final(self).input_view() == old(self).input_view(),
            final(self).current_view() == old(self).current_view(),
            final(self).seq_view() == old(self).seq_view(),
            final(self).next_handle_view() == old(self).next_handle_view(),
            contains_handle(old(self).windows_view(), win.id.handle) ==> final(self).windows_view()
                == old(self).windows_view() && final(self).active_view() == old(self).active_view(),
            !contains_handle(old(self).windows_view(), win.id.handle) && old(self).windows_view().len()
                == 0 ==> final(self).windows_view() == seq![win] && final(self).active_view()
                == old(self).active_view(),
            !contains_handle(old(self).windows_view(), win.id.handle) && old(self).windows_view().len()
                > 0 && loc == WindowInsertLocation::Back ==> final(self).windows_view()
                == old(self).windows_view().update(
                old(self).windows_view().len() - 1,
                with_rom(old(self).windows_view().last()),
            ).push(without_rom(win)) && final(self).active_view() == Some(win.id.handle),
            !contains_handle(old(self).windows_view(), win.id.handle) && old(self).windows_view().len()
                > 0 && loc == WindowInsertLocation::Front ==> final(self).windows_view() == seq![
                without_rom(win),
            ] + old(self).windows_view() && final(self).active_view() == old(self).active_view(),
    {
        let ghost handed = self.wf() && win.id.handle < self.win_handle_seq;
        proof {
            lemma_find_handle_from_props(self.windows@, win.id.handle, 0);
        }
        if self.find_window_index_by_handle(win.id.handle).is_some() {
            return;
        }
        assert(!contains_handle(self.windows@, win.id.handle));
        if self.windows.len() == 0 {
            self.windows.push(win);
            return;
        }
        let ghost old_ws = self.windows@;
        let ghost old_win = win;
        let mut win = win;
        win.flags.remove(BitFlags::from_flag(PanelFlags::WindowRom));
        assert(win == without_rom(old_win));
        match loc {
            WindowInsertLocation::Back => {
                let n = self.windows.len();
                self.windows[n - 1].flags.insert(BitFlags::from_flag(PanelFlags::WindowRom));
                assert(self.windows@ =~= old_ws.update(n - 1, with_rom(old_ws.last())));
                self.active_win = Some(win.id.handle);
                self.windows.push(win);
                proof {
                    let ws = self.windows@;
                    assert(ws[n as int].id.handle == win.id.handle);
                    assert forall|i: int, j: int|
                        0 <= i < ws.len() && 0 <= j < ws.len() && i != j implies ws[i].id.handle
                        != ws[j].id.handle by {
                        if i < n && j < n {
                            assert(ws[i].id.handle == old_ws[i].id.handle);
                            assert(ws[j].id.handle == old_ws[j].id.handle);
                        } else if i < n {
                            assert(ws[i].id.handle == old_ws[i].id.handle);
                        } else if j < n {
                            assert(ws[j].id.handle == old_ws[j].id.handle);
                        }
                    }
                    if handed {
                        assert forall|i: int| 0 <= i < ws.len() implies (#[trigger] ws[i]).id.handle
                            < self.win_handle_seq by {
                            if i < n {
                                assert(ws[i].id.handle == old_ws[i].id.handle);
                            }
                        }
                    }
                    assert(contains_handle(ws, win.id.handle));
                }
            },
            WindowInsertLocation::Front => {
                self.windows.insert(0, win);
                proof {
                    let ws = self.windows@;
                    assert(ws =~= seq![win] + old_ws);
                    assert forall|i: int, j: int|
                        0 <= i < ws.len() && 0 <= j < ws.len() && i != j implies ws[i].id.handle
                        != ws[j].id.handle by {
                        if i > 0 && j > 0 {
                            assert(ws[i] == old_ws[i - 1]);
                            assert(ws[j] == old_ws[j - 1]);
                        } else if i > 0 {
                            assert(ws[i] == old_ws[i - 1]);
                        } else if j > 0 {
                            assert(ws[j] == old_ws[j - 1]);
                        }
                    }
                    if handed {
                        assert forall|i: int| 0 <= i < ws.len() implies (#[trigger] ws[i]).id.handle
                            < self.win_handle_seq by {
                            if i > 0 {
                                assert(ws[i] == old_ws[i - 1]);
                            }
                        }
                    }
                    if let Some(h) = self.active_win {
                        let k = choose|k: int| 0 <= k < old_ws.len() && (#[trigger] old_ws[k]).id.handle == h;
                        assert(ws[k + 1] == old_ws[k]);
                    }
                }
            },
        }
    }

    /// Removes the window with handle `handle`, and hands it back. When there
    /// was no active window, or the removed window was the active one, the
    /// front window becomes active and loses its read only option.
    pub fn remove_window(&mut self, handle: usize) -> (removed: Option<Window>)
        requires
            old(self).wf(),
        ensures
            final(self).wf(),
            final(self).input_view() == old(self).input_view(),
            final(self).current_view() == old(self).current_view(),
            final(self).seq_view() == old(self).seq_view(),
            final(self).next_handle_view() == old(self).next_handle_view(),
            ({
                let ws = old(self).windows_view();
                let ws1 = match find_handle(ws, handle) {
                    Some(i) => ws.remove(i),
                    None => ws,
                };
                &&& removed == match find_handle(ws, handle) {
                    Some(i) => Some(ws[i]),
                    None => None::<Window>,
                }
                &&& (old(self).active_view() is None || old(self).active_view() == Some(handle)) ==> if ws1.len()
                    > 0 {
                    &&& final(self).windows_view() == ws1.update(ws1.len() - 1, without_rom(ws1.last()))
                    &&& final(self).active_view() == Some(ws1.last().id.handle)
                } else {
                    &&& final(self).windows_view() == ws1
                    &&& final(self).active_view() is None
                }
                &&& !(old(self).active_view() is None || old(self).active_view() == Some(handle))
                    ==> final(self).windows_view() == ws1 && final(self).active_view()
                    == old(self).active_view()
            }),
    {
        let ghost ws = self.windows@;
        let pos = self.find_window_index_by_handle(handle);
        let removed = match pos {
            Some(i) => {
                proof {
                    lemma_find_handle_from_props(ws, handle, 0);
                }
                let w = self.windows.remove(i);
                proof {
                    let ws1 = self.windows@;
                    assert(ws1 =~= ws.remove(i as int));
                    assert forall|a: int, b: int|
                        0 <= a < ws1.len() && 0 <= b < ws1.len() && a != b implies ws1[a].id.handle
                        != ws1[b].id.handle by {
                        let a0 = if a < i { a } else { a + 1 };
                        let b0 = if b < i { b } else { b + 1 };
                        assert(ws1[a] == ws[a0]);
                        assert(ws1[b] == ws[b0]);
                    }
                    assert forall|a: int| 0 <= a < ws1.len() implies (#[trigger] ws1[a]).id.handle
                        < self.win_handle_seq by {
                        let a0 = if a < i { a } else { a + 1 };
                        assert(ws1[a] == ws[a0]);
                    }
                    if let Some(h) = self.active_win {
                        if h != handle {
                            let k = choose|k: int| 0 <= k < ws.len() && (#[trigger] ws[k]).id.handle == h;
                            assert(k != i);
                            let k1 = if k < i { k } else { k - 1 };
                            assert(ws1[k1] == ws[k]);
                        }
                    }
                }
                Some(w)
            },
            None => None,
        };
        let ghost ws1 = self.windows@;
        let when_last_active = match self.active_win {
            None => true,
            Some(h) => h == handle,
        };
        if when_last_active {
            let n = self.windows.len();
            if n > 0 {
                self.windows[n - 1].flags.remove(BitFlags::from_flag(PanelFlags::WindowRom));
                assert(self.windows@ =~= ws1.update(n - 1, without_rom(ws1.last())));
                self.active_win = Some(self.windows[n - 1].id.handle);
                proof {
                    let ws2 = self.windows@;
                    assert forall|a: int, b: int|
                        0 <= a < ws2.len() && 0 <= b < ws2.len() && a != b implies ws2[a].id.handle
                        != ws2[b].id.handle by {
                        assert(ws2[a].id.handle == ws1[a].id.handle);
                        assert(ws2[b].id.handle == ws1[b].id.handle);
                    }
                    assert forall|a: int| 0 <= a < ws2.len() implies (#[trigger] ws2[a]).id.handle
                        < self.win_handle_seq by {
                        assert(ws2[a].id.handle == ws1[a].id.handle);
                    }
                    assert(contains_handle(ws2, ws2[n - 1].id.handle));
                }
            } else {
                self.active_win = None;
            }
        }
        removed
    }

    /// Replaces the options of the window at `i`.
    fn set_window_flags(&mut self, i: usize, flags: BitFlags<PanelFlags>)
        requires
            old(self).wf(),
            i < old(self).windows_view().len(),
        ensures
            final(self).wf(),
            final(self).windows_view() == old(self).windows_view().update(
                i as int,
                with_bits(old(self).windows_view()[i as int], flags.view_bits()),
            ),
            final(self).input_view() == old(self).input_view(),
            final(self).active_view() == old(self).active_view(),
            final(self).current_view() == old(self).current_view(),
            final(self).seq_view() == old(self).seq_view(),
            final(self).next_handle_view() == old(self).next_handle_view(),
    {
        let ghost ws = self.windows@;
        self.windows[i].flags = flags;
        proof {
            let ws2 = self.windows@;
            assert(ws2 =~= ws.update(i as int, with_bits(ws[i as int], flags.view_bits())));
            assert forall|a: int, b: int|
                0 <= a < ws2.len() && 0 <= b < ws2.len() && a != b implies ws2[a].id.handle
                != ws2[b].id.handle by {
                assert(ws2[a].id.handle == ws[a].id.handle);
                assert(ws2[b].id.handle == ws[b].id.handle);
            }
            assert forall|a: int| 0 <= a < ws2.len() implies (#[trigger] ws2[a]).id.handle
                < self.win_handle_seq by {
                assert(ws2[a].id.handle == ws[a].id.handle);
            }
            if let Some(h) = self.active_win {
                let k = choose|k: int| 0 <= k < ws.len() && (#[trigger] ws[k]).id.handle == h;
                assert(ws2[k].id.handle == h);
            }
        }
    }

    /// Finds the window named `name`, then adds or removes the options
    /// `bits`; nothing changes when no window has that name.
    fn change_named_window_flags(&mut self, name: &str, flag_set: BitFlags<PanelFlags>, add: bool)
        requires
            old(self).wf(),
        ensures
            final(self).wf(),
            final(self).input_view() == old(self).input_view(),
            final(self).active_view() == old(self).active_view(),
            final(self).current_view() == old(self).current_view(),
            final(self).seq_view() == old(self).seq_view(),
            final(self).next_handle_view() == old(self).next_handle_view(),
            ({
                let ws = old(self).windows_view();
                match find_name(ws, spec_name_hash(name@), name@) {
                    Some(i) => final(self).windows_view() == ws.update(
                        i,
                        with_bits(
                            ws[i],
                            if add {
                                ws[i].flags.view_bits() | flag_set.view_bits()
                            } else {
                                ws[i].flags.view_bits() & !flag_set.view_bits()
                            },
                        ),
                    ),
                    None => final(self).windows_view() == ws,
                }
            }),
    {
        let hash = name_hash(name);
        proof {
            lemma_find_name_from_props(self.windows@, hash, name@, 0);
        }
        match self.find_window(hash, name) {
            Some(i) => {
                let mut f = self.windows[i].flags;
                if add {
                    f.insert(flag_set);
                } else {
                    f.remove(flag_set);
                }
                self.set_window_flags(i, f);
            },
            None => {},
        }
    }

    /// Closes the window named `name`: it becomes hidden and closed, unless
    /// it is the active window.
    pub fn window_close(&mut self, name: &str)
        requires
            old(self).wf(),
        ensures
            final(self).wf(),
            final(self).input_view() == old(self).input_view(),
            final(self).active_view() == old(self).active_view(),
            final(self).current_view() == old(self).current_view(),
            final(self).seq_view() == old(self).seq_view(),
            final(self).next_handle_view() == old(self).next_handle_view(),
            ({
                let ws = old(self).windows_view();
                match find_name(ws, spec_name_hash(name@), name@) {
                    Some(i) => if old(self).active_view() == Some(ws[i].id.handle) {
                        final(self).windows_view() == ws
                    } else {
                        final(self).windows_view() == ws.update(
                            i,
                            with_bits(ws[i], ws[i].flags.view_bits() | hidden_bit() | closed_bit()),
                        )
                    },
                    None => final(self).windows_view() == ws,
                }
            }),
    {
        let hash = name_hash(name);
        proof {
            lemma_find_name_from_props(self.windows@, hash, name@, 0);
        }
        match self.find_window(hash, name) {
            Some(i) => {
                let h = self.windows[i].id.handle;
                if !self.is_active_window(h) {
                    let mut f = self.windows[i].flags;
                    f.insert(BitFlags::from_flag(PanelFlags::WindowHidden).with(PanelFlags::WindowClosed));
                    proof {
                        lemma_or_assoc(self.windows@[i as int].flags.view_bits(), hidden_bit(), closed_bit());
                    }
                    self.set_window_flags(i, f);
                }
            },
            None => {},
        }
    }

    /// Minimizes or restores the window named `name`.
    pub fn window_collapse(&mut self, name: &str, collapse: CollapseStates)
        requires
            old(self).wf(),
        ensures
            final(self).wf(),
            final(self).input_view() == old(self).input_view(),
            final(self).active_view() == old(self).active_view(),
            final(self).current_view() == old(self).current_view(),
            final(self).seq_view() == old(self).seq_view(),
            final(self).next_handle_view() == old(self).next_handle_view(),
            ({
                let ws = old(self).windows_view();
                match find_name(ws, spec_name_hash(name@), name@) {
                    Some(i) => final(self).windows_view() == ws.update(
                        i,
                        with_bits(
                            ws[i],
                            if collapse == CollapseStates::Minimized {
                                ws[i].flags.view_bits() | minimized_bit()
                            } else {
                                ws[i].flags.view_bits() & !minimized_bit()
                            },
                        ),
                    ),
                    None => final(self).windows_view() == ws,
                }
            }),
    {
        self.change_named_window_flags(
            name,
            BitFlags::from_flag(PanelFlags::WindowMinimized),
            collapse == CollapseStates::Minimized,
        );
    }

    /// Hides or shows the window named `name`.
    pub fn window_show(&mut self, name: &str, s: ShowStates)
        requires
            old(self).wf(),
        ensures
            final(self).wf(),
            final(self).input_view() == old(self).input_view(),
            final(self).active_view() == old(self).active_view(),
            final(self).current_view() == old(self).current_view(),
            final(self).seq_view() == old(self).seq_view(),
            final(self).next_handle_view() == old(self).next_handle_view(),
            ({
                let ws = old(self).windows_view();
                match find_name(ws, spec_name_hash(name@), name@) {
                    Some(i) => final(self).windows_view() == ws.update(
                        i,
                        with_bits(
                            ws[i],
                            if s == ShowStates::Hidden {
                                ws[i].flags.view_bits() | hidden_bit()
                            } else {
                                ws[i].flags.view_bits() & !hidden_bit()
                            },
                        ),
                    ),
                    None => final(self).windows_view() == ws,
                }
            }),
    {
        self.change_named_window_flags(
            name,
            BitFlags::from_flag(PanelFlags::WindowHidden),
            s == ShowStates::Hidden,
        );
    }

    /// The handle of the window named `name`.
    pub fn window_find(&self, name: &str) -> (r: Option<usize>)
        ensures
            r == match find_name(self.windows_view(), spec_name_hash(name@), name@) {
                Some(i) => Some(self.windows_view()[i].id.handle),
                None => None::<usize>,
            },
    {
        let hash = name_hash(name);
        proof {
            lemma_find_name_from_props(self.windows@, hash, name@, 0);
        }
        match self.find_window(hash, name) {
            Some(i) => Some(self.windows[i].id.handle),
            None => None,
        }
    }

    /// Whether the window named `name` has the option `bit`; `missing`
    /// when no window has that name.
    fn named_window_has(&self, name: &str, flag: PanelFlags, missing: bool) -> (b: bool)
        ensures
            b == match find_name(self.windows_view(), spec_name_hash(name@), name@) {
                Some(i) => has_bit(self.windows_view()[i], flag.spec_bits()),
                None => missing,
            },
    {
        let hash = name_hash(name);
        proof {
            lemma_find_name_from_props(self.windows@, hash, name@, 0);
        }
        match self.find_window(hash, name) {
            Some(i) => self.windows[i].flags.intersects(BitFlags::from_flag(flag)),
            None => missing,
        }
    }

    /// The window named `name` is minimized; false when there is none.
    pub fn window_is_collapsed(&self, name: &str) -> (b: bool)
        ensures
            b == match find_name(self.windows_view(), spec_name_hash(name@), name@) {
                Some(i) => has_bit(self.windows_view()[i], minimized_bit()),
                None => false,
            },
    {
        self.named_window_has(name, PanelFlags::WindowMinimized, false)
    }

    /// The window named `name` is closed; true when there is none.
    pub fn window_is_closed(&self, name: &str) -> (b: bool)
        ensures
            b == match find_name(self.windows_view(), spec_name_hash(name@), name@) {
                Some(i) => has_bit(self.windows_view()[i], closed_bit()),
                None => true,
            },
    {
        self.named_window_has(name, PanelFlags::WindowClosed, true)
    }

    /// The window named `name` is hidden; true when there is none.
    pub fn window_is_hidden(&self, name: &str) -> (b: bool)
        ensures
            b == match find_name(self.windows_view(), spec_name_hash(name@), name@) {
                Some(i) => has_bit(self.windows_view()[i], hidden_bit()),
                None => true,
            },
    {
        self.named_window_has(name, PanelFlags::WindowHidden, true)
    }

    /// The window named `name` is the active window.
    pub fn window_is_active(&self, name: &str) -> (b: bool)
        ensures
            b == match find_name(self.windows_view(), spec_name_hash(name@), name@) {
                Some(i) => self.active_view() == Some(self.windows_view()[i].id.handle),
                None => false,
            },
    {
        match self.window_find(name) {
            Some(h) => self.is_active_window(h),
            None => false,
        }
    }

    /// The window being built is the active window.
    pub fn window_has_focus(&self) -> (b: bool)
        ensures
            b == (self.current_view() is Some && self.current_view() == self.active_view()),
    {
        match (self.current_win, self.active_win) {
            (Some(c), Some(a)) => c == a,
            _ => false,
        }
    }

    /// Ends the window being built.
    pub fn end(&mut self)
        ensures
            final(self).current_view() is None,
            final(self).input_view() == old(self).input_view(),
            final(self).windows_view() == old(self).windows_view(),
            final(self).active_view() == old(self).active_view(),
            final(self).seq_view() == old(self).seq_view(),
            final(self).next_handle_view() == old(self).next_handle_view(),
    {
        self.current_win = None;
    }

    /// Brings the window named `name` to the front and makes it the active
    /// window; with no such window there is no active window afterwards.
    pub fn window_set_focus(&mut self, name: &str)
        requires
            old(self).wf(),
        ensures
            final(self).wf(),
            final(self).input_view() == old(self).input_view(),
            final(self).current_view() == old(self).current_view(),
            final(self).seq_view() == old(self).seq_view(),
            final(self).next_handle_view() == old(self).next_handle_view(),
            ({
                let ws = old(self).windows_view();
                match find_name(ws, spec_name_hash(name@), name@) {
                    None => final(self).windows_view() == ws && final(self).active_view() is None,
                    Some(i) => {
                        &&& final(self).active_view() == Some(ws[i].id.handle)
                        &&& i == ws.len() - 1 ==> final(self).windows_view() == ws
                        &&& i != ws.len() - 1 ==> {
                            let ws1 = ws.remove(i);
                            final(self).windows_view() == ws1.update(ws1.len() - 1, with_rom(ws1.last())).push(
                                without_rom(ws[i]),
                            )
                        }
                    },
                }
            }),
    {
        let hash = name_hash(name);
        let ghost ws = self.windows@;
        proof {
            lemma_find_name_from_props(ws, hash, name@, 0);
        }
        match self.find_window(hash, name) {
            None => {
                self.active_win = None;
            },
            Some(i) => {
                let h = self.windows[i].id.handle;
                proof {
                    lemma_find_handle_unique(ws, h, i as int);
                }
                if !self.is_last_window(h) {
                    assert(i != ws.len() - 1);
                    let removed = self.remove_window(h);
                    let ghost ws1 = ws.remove(i as int);
                    let ghost ws1b = self.windows@;
                    assert(ws1.len() > 0);
                    proof {
                        assert forall|k: int| 0 <= k < ws1b.len() implies (#[trigger] ws1b[k]).id.handle != h by {
                            assert(ws1b[k].id.handle == ws1[k].id.handle);
                            let k0 = if k < i { k } else { k + 1 };
                            assert(ws1[k] == ws[k0]);
                        }
                    }
                    match removed {
                        Some(w) => {
                            self.insert_window(w, WindowInsertLocation::Back);
                            proof {
                                lemma_rom_twice(ws1.last());
                                assert(self.windows@ =~= ws1.update(ws1.len() - 1, with_rom(ws1.last())).push(
                                    without_rom(ws[i as int]),
                                ));
                            }
                        },
                        None => {},
                    }
                }
                self.active_win = Some(h);
                proof {
                    assert(self.windows@.last().id.handle == h);
                    assert(contains_handle(self.windows@, h));
                }
            },
        }
    }

    /// Starts building the window named `name` this frame, creating it when
    /// it does not exist yet, and makes it the window being built. An
    /// existing window keeps its options other than `WindowDynamic` and gains
    /// `flags`; a new window goes to the front of the drawing order, or to
    /// the back when it is a background window. Returns whether the window's
    /// contents are shown: it is neither hidden, closed nor minimized (the
    /// header buttons, laid out in floating point, are left to the caller,
    /// see `Panel::header_flags`). It does not activate a window that the
    /// mouse hovers over or clicks among overlapping windows: apart from
    /// inserting a new window, the drawing order and the active window stay
    /// as they were.
    pub fn begin_window(&mut self, name: &str, flags: BitFlags<PanelFlags>) -> (visible: bool)
        requires
            old(self).wf(),
            old(self).next_handle_view() < usize::MAX,
        ensures
            final(self).wf(),
            find_name(final(self).windows_view(), spec_name_hash(name@), name@) matches Some(i)
                && final(self).current_view() == Some(final(self).windows_view()[i].id.handle),
            final(self).input_view() == old(self).input_view(),
            final(self).seq_view() == old(self).seq_view(),
            ({
                let ws = old(self).windows_view();
                let hash = spec_name_hash(name@);
                match find_name(ws, hash, name@) {
                    Some(i) => {
                        let bits = (ws[i].flags.view_bits() & !dynamic_bit()) | flags.view_bits();
                        &&& final(self).windows_view() == ws.update(
                            i,
                            Window { flags: BitFlags::spec_from_bits(bits), seq: old(self).seq_view(), ..ws[i] },
                        )
                        &&& final(self).next_handle_view() == old(self).next_handle_view()
                        &&& final(self).active_view() == if old(self).active_view() is None && bits
                            & hidden_bit() == 0 {
                            Some(ws[i].id.handle)
                        } else {
                            old(self).active_view()
                        }
                        &&& final(self).current_view() == Some(ws[i].id.handle)
                        &&& visible == (bits & shown_mask() == 0)
                    },
                    None => {
                        let h = old(self).next_handle_view();
                        let nws = final(self).windows_view();
                        &&& final(self).next_handle_view() == h + 1
                        &&& final(self).current_view() == Some(h)
                        &&& visible == (flags.view_bits() & shown_mask() == 0)
                        &&& ws.len() == 0 ==> nws.len() == 1 && is_new_window(
                            nws[0],
                            h,
                            hash,
                            name@,
                            flags.view_bits(),
                        ) && final(self).active_view() == Some(h)
                        &&& ws.len() > 0 && flags.view_bits() & background_bit() != 0 ==> nws.len()
                            == ws.len() + 1 && nws.drop_first() == ws && is_new_window(
                            nws[0],
                            h,
                            hash,
                            name@,
                            flags.view_bits() & !rom_bit(),
                        ) && final(self).active_view() == if old(self).active_view() is None {
                            Some(h)
                        } else {
                            old(self).active_view()
                        }
                        &&& ws.len() > 0 && flags.view_bits() & background_bit() == 0 ==> nws.len()
                            == ws.len() + 1 && nws.drop_last() == ws.update(
                            ws.len() - 1,
                            with_rom(ws.last()),
                        ) && is_new_window(nws.last(), h, hash, name@, flags.view_bits() & !rom_bit())
                            && final(self).active_view() == Some(h)
                    },
                }
            }),
    {
        let hash = name_hash(name);
        let ghost ws = self.windows@;
        proof {
            lemma_find_name_from_props(ws, hash, name@, 0);
        }
        match self.find_window(hash, name) {
            Some(i) => {
                let mut f = self.windows[i].flags;
                f.remove(BitFlags::from_flag(PanelFlags::WindowDynamic));
                f.insert(flags);
                self.set_window_flags(i, f);
                let s = self.seq;
                self.windows[i].seq = s;
                let h = self.windows[i].id.handle;
                let hidden = f.intersects(BitFlags::from_flag(PanelFlags::WindowHidden));
                proof {
                    let ws2 = self.windows@;
                    assert(ws2 =~= ws.update(
                        i as int,
                        Window {
                            flags: BitFlags::spec_from_bits(f.view_bits()),
                            seq: s,
                            ..ws[i as int]
                        },
                    ));
                    assert forall|a: int, b: int|
                        0 <= a < ws2.len() && 0 <= b < ws2.len() && a != b implies ws2[a].id.handle
                        != ws2[b].id.handle by {
                        assert(ws2[a].id.handle == ws[a].id.handle);
                        assert(ws2[b].id.handle == ws[b].id.handle);
                    }
                    assert forall|a: int| 0 <= a < ws2.len() implies (#[trigger] ws2[a]).id.handle
                        < self.win_handle_seq by {
                        assert(ws2[a].id.handle == ws[a].id.handle);
                    }
                    if let Some(ah) = self.active_win {
                        let k = choose|k: int| 0 <= k < ws.len() && (#[trigger] ws[k]).id.handle == ah;
                        assert(ws2[k].id.handle == ah);
                    }
                    assert(ws2[i as int].id.handle == h);
                    lemma_find_name_same_ids(ws, ws2, hash, name@, 0);
                }
                if self.active_win.is_none() && !hidden {
                    self.active_win = Some(h);
                }
                self.current_win = Some(h);
                let shown = !f.intersects(
                    BitFlags::from_flag(PanelFlags::WindowHidden).with(PanelFlags::WindowClosed).with(
                        PanelFlags::WindowMinimized,
                    ),
                );
                proof {
                    lemma_shown_mask();
                }
                shown
            },
            None => {
                let h = self.alloc_win_handle();
                let w = Window::new(h, hash, name, flags);
                proof {
                    assert forall|k: int| 0 <= k < ws.len() implies (#[trigger] ws[k]).id.handle != h by {}
                }
                let background = flags.intersects(BitFlags::from_flag(PanelFlags::WindowBackground));
                if background {
                    self.insert_window(w, WindowInsertLocation::Front);
                } else {
                    self.insert_window(w, WindowInsertLocation::Back);
                }
                if self.active_win.is_none() {
                    self.active_win = Some(h);
                    proof {
                        let nws = self.windows@;
                        if ws.len() == 0 {
                            assert(nws[0].id.handle == h);
                        } else if background {
                            assert(nws[0].id.handle == h);
                        } else {
                            assert(nws[nws.len() - 1].id.handle == h);
                        }
                        assert(contains_handle(nws, h));
                    }
                }
                proof {
                    let nws = self.windows@;
                    if ws.len() > 0 && background {
                        assert(nws.drop_first() =~= ws);
                    }
                    if ws.len() > 0 && !background {
                        assert(nws.drop_last() =~= ws.update(ws.len() - 1, with_rom(ws.last())));
                    }
                    if ws.len() == 0 || background {
                        assert(name_matches(nws[0], hash, name@));
                        lemma_find_name_first(nws, hash, name@, 0, 0);
                    } else {
                        let last = nws.len() - 1;
                        assert(name_matches(nws[last], hash, name@));
                        assert forall|k: int| 0 <= k < last implies !name_matches(#[trigger] nws[k], hash, name@) by {
                            assert(nws[k].id == ws[k].id);
                        }
                        lemma_find_name_first(nws, hash, name@, last, 0);
                    }
                }
                self.current_win = Some(h);
                proof {
                    lemma_shown_mask();
                }
                !flags.intersects(
                    BitFlags::from_flag(PanelFlags::WindowHidden).with(PanelFlags::WindowClosed).with(
                        PanelFlags::WindowMinimized,
                    ),
                )
            },
        }
    }

    /// Ends a frame: drops the windows that were not used this frame or are
    /// closed, hands the focus on when the active window went away or is
    /// hidden or closed, and starts the next frame.
    pub fn clear(&mut self)
        requires
            old(self).wf(),
            old(self).seq_view() < u32::MAX,
        ensures
            final(self).wf(),
            (final(self).windows_view(), final(self).active_view()) == clear_result(
                old(self).windows_view(),
                old(self).seq_view(),
                old(self).active_view(),
            ),
            final(self).seq_view() == old(self).seq_view() + 1,
            final(self).input_view() == old(self).input_view(),
            final(self).current_view() == old(self).current_view(),
            final(self).next_handle_view() == old(self).next_handle_view(),
    {
        let s = self.seq;
        let ghost ws = self.windows@;
        let ghost a = self.active_win;
        let mut rest: Vec<Window> = Vec::new();
        core::mem::swap(&mut rest, &mut self.windows);
        let mut kept: Vec<Window> = Vec::new();
        let mut active = self.active_win;
        let n = rest.len();
        let mut i: usize = 0;
        assert(rest@.subrange(0, n as int) =~= rest@);
        while i < n
            invariant
                n == ws.len(),
                i <= n,
                rest@ == ws.subrange(i as int, n as int),
                (kept@, active) == clear_prefix(ws, s, a, i as nat),
            decreases n - i,
        {
            let w = rest.remove(0);
            assert(w == ws[i as int]);
            assert(rest@ =~= ws.subrange(i + 1, n as int));
            let minimized = w.flags.intersects(BitFlags::from_flag(PanelFlags::WindowMinimized));
            let closed = w.flags.intersects(BitFlags::from_flag(PanelFlags::WindowClosed));
            let hidden = w.flags.intersects(BitFlags::from_flag(PanelFlags::WindowHidden));
            if minimized && !closed && w.seq == s {
                kept.push(w);
            } else {
                let is_active = match active {
                    Some(h) => h == w.id.handle,
                    None => false,
                };
                if (hidden || closed) && is_active {
                    let k = kept.len();
                    if k > 0 {
                        kept[k - 1].flags.remove(BitFlags::from_flag(PanelFlags::WindowRom));
                        active = Some(kept[k - 1].id.handle);
                    } else {
                        active = None;
                    }
                }
                if w.seq == s && !closed {
                    kept.push(w);
                }
            }
            proof {
                let p = clear_prefix(ws, s, a, i as nat);
                assert(clear_prefix(ws, s, a, (i + 1) as nat) == clear_step(p.0, p.1, ws[i as int], s));
                assert(kept@ =~= clear_prefix(ws, s, a, (i + 1) as nat).0);
            }
            i = i + 1;
        }
        let ghost p = clear_prefix(ws, s, a, n as nat);
        let dropped_active = match active {
            Some(h) => !contains_window_handle(&kept, h),
            None => true,
        };
        if kept.len() < n && dropped_active {
            let k = kept.len();
            if k > 0 {
                kept[k - 1].flags.remove(BitFlags::from_flag(PanelFlags::WindowRom));
                active = Some(kept[k - 1].id.handle);
                assert(kept@ =~= p.0.update(p.0.len() - 1, without_rom(p.0.last())));
            } else {
                active = None;
            }
        }
        self.windows = kept;
        self.active_win = active;
        self.seq = s + 1;
        proof {
            lemma_clear_result(ws, s, a);
            let r = self.windows@;
            let kw = kept_windows(ws, s);
            assert forall|j: int| 0 <= j < r.len() implies (#[trigger] r[j]).id.handle < self.win_handle_seq by {
                assert(same_but_rom(r[j], kw[j]));
                lemma_kept_windows_from(ws, s, j);
                let t = choose|t: int| 0 <= t < ws.len() && #[trigger] ws[t] == kw[j];
            }
        }
    }

    /// The window with handle `handle` is the active window.
    pub fn is_active_window(&self, handle: usize) -> (b: bool)
        ensures
            b == (self.active_view() == Some(handle)),
    {
        match self.active_win {
            Some(h) => h == handle,
            None => false,
        }
    }

    /// The window with handle `handle` is the front window.
    pub fn is_last_window(&self, handle: usize) -> (b: bool)
        ensures
            b == (self.windows_view().len() > 0 && self.windows_view().last().id.handle == handle),
    {
        let n = self.windows.len();
        if n == 0 {
            false
        } else {
            self.windows[n - 1].id.handle == handle
        }
    }
}

} // verus!
