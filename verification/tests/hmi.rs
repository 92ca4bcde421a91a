use gui_core::hmi::base::{TextAlign, WidgetStates};
use gui_core::hmi::flags::BitFlags;
use gui_core::hmi::image::Image;
use gui_core::hmi::base::GenericHandle;
use gui_core::hmi::input::{Input, KeyId, MouseButtonId};
use gui_core::hmi::panel::{Panel, PanelFlags, PanelType, PopupBuffer};
use gui_core::hmi::ui_context::{
    name_hash, CollapseStates, ShowStates, UiContext, WindowHover, WindowInsertLocation,
};
use gui_core::hmi::window::Window;

fn flag(f: PanelFlags) -> BitFlags<PanelFlags> {
    BitFlags::from_flag(f)
}

#[test]
fn bit_flags_set_operations() {
    let mut f = BitFlags::from_flag(PanelFlags::WindowBorder).with(PanelFlags::WindowTitle);
    assert_eq!(f.bits(), 0x41);
    assert!(f.contains(flag(PanelFlags::WindowTitle)));
    assert!(!f.contains(flag(PanelFlags::WindowTitle).with(PanelFlags::WindowHidden)));
    assert!(f.intersects(flag(PanelFlags::WindowTitle).with(PanelFlags::WindowHidden)));
    f.insert(flag(PanelFlags::WindowHidden));
    assert_eq!(f.bits(), 0x2041);
    f.remove(flag(PanelFlags::WindowBorder).with(PanelFlags::WindowHidden));
    assert_eq!(f.bits(), 0x40);
    assert!(BitFlags::<PanelFlags>::empty().is_empty());
    assert_eq!(f.union(flag(PanelFlags::WindowRom)).bits(), 0x1040);
    assert_eq!(BitFlags::<PanelFlags>::from_bits_unchecked(0x8000), flag(PanelFlags::WindowMinimized));
}

#[test]
fn text_alignments() {
    assert_eq!(TextAlign::centered().bits(), 0x12);
    assert_eq!(TextAlign::left().bits(), 0x11);
    assert_eq!(TextAlign::right().bits(), 0x14);
}

#[test]
fn widget_states() {
    let hovered = WidgetStates::hovered();
    assert_eq!(hovered.bits(), 0x12);
    assert!(WidgetStates::is_hovered(hovered));
    assert!(!WidgetStates::is_active(hovered));
    let active = WidgetStates::active();
    assert_eq!(active.bits(), 0x22);
    assert!(WidgetStates::is_active(active));
    // only the hover bit, without modified, is not hovered
    assert!(!WidgetStates::is_hovered(BitFlags::from_flag(WidgetStates::Hover)));
    assert_eq!(WidgetStates::reset(active).bits(), 0x06);
    assert_eq!(WidgetStates::reset(BitFlags::from_flag(WidgetStates::Hover)).bits(), 0x04);
}

#[test]
fn panel_types() {
    assert_eq!(PanelType::non_block().bits(), 0xF0);
    assert_eq!(PanelType::popup().bits(), 0xF4);
    assert_eq!(PanelType::sub().bits(), 0xF6);
    let p = Panel::new(BitFlags::from_flag(PanelType::Popup));
    assert!(p.is_popup());
    assert!(p.is_sub());
    assert!(!p.is_nonblock());
    assert!(p.flags.is_empty());
    let w = Panel::new(BitFlags::from_flag(PanelType::Window));
    assert!(!w.is_popup() && !w.is_sub() && !w.is_nonblock());
    let m = Panel::new(BitFlags::from_flag(PanelType::Menu));
    assert!(m.is_nonblock() && m.is_popup() && m.is_sub());
}

#[test]
fn panel_header() {
    let title = Some("title");
    assert!(Panel::has_header(flag(PanelFlags::WindowTitle), title));
    assert!(Panel::has_header(flag(PanelFlags::WindowClosable), title));
    assert!(!Panel::has_header(flag(PanelFlags::WindowTitle), None));
    assert!(!Panel::has_header(flag(PanelFlags::WindowBorder), title));
    assert!(!Panel::has_header(
        flag(PanelFlags::WindowTitle).with(PanelFlags::WindowHidden),
        title
    ));
}

#[test]
fn popup_buffer_start_and_finish() {
    let mut b = PopupBuffer::default();
    assert!(!b.active);
    b.start(12);
    assert_eq!(
        b,
        PopupBuffer { begin: 12, parent: 12, last: 12, end: 12, active: true }
    );
    b.finish(30);
    assert_eq!(
        b,
        PopupBuffer { begin: 12, parent: 12, last: 30, end: 30, active: true }
    );
}

#[test]
fn window_popup() {
    let mut w = Window::new(7, 99, "w", flag(PanelFlags::WindowBorder));
    assert_eq!(w.id.handle, 7);
    assert_eq!(w.id.name, 99);
    assert_eq!(w.id.name_str, "w");
    w.start_popup(5);
    w.finish_popup(9);
    assert_eq!(w.popup, PopupBuffer { begin: 5, parent: 5, last: 9, end: 9, active: true });
    assert_eq!(w.flags, flag(PanelFlags::WindowBorder));
}

#[test]
fn images() {
    let a = Image::image_id(3);
    assert_eq!(a.handle, GenericHandle::Id(3));
    assert!(!a.is_subimage());
    let b = Image::image_ptr(0x1000);
    assert_eq!(b.handle, GenericHandle::Ptr(0x1000));
    let mut c = Image::image_handle(GenericHandle::Id(1));
    c.w = 10;
    c.h = 4;
    assert!(c.is_subimage());
    c.h = 0;
    assert!(!c.is_subimage());
}

#[test]
fn key_press_and_release_in_one_frame() {
    let mut input = Input::new();
    input.begin();
    input.key(KeyId::KeyEnter, true);
    assert!(input.is_key_pressed(KeyId::KeyEnter));
    assert!(input.is_key_down(KeyId::KeyEnter));
    assert!(!input.is_key_released(KeyId::KeyEnter));
    input.key(KeyId::KeyEnter, false);
    // pressed and released within the frame: both are reported
    assert!(input.is_key_pressed(KeyId::KeyEnter));
    assert!(input.is_key_released(KeyId::KeyEnter));
    assert!(!input.is_key_down(KeyId::KeyEnter));
    input.end();
    input.begin();
    assert!(!input.is_key_pressed(KeyId::KeyEnter));
    assert!(!input.is_key_released(KeyId::KeyEnter));
    assert!(!input.is_key_pressed(KeyId::KeyTab));
}

#[test]
fn mouse_clicks() {
    let mut input = Input::new();
    input.begin();
    input.motion(10, 20);
    input.button(MouseButtonId::ButtonLeft, 10, 20, true);
    assert!(input.is_mouse_down(MouseButtonId::ButtonLeft));
    assert!(input.has_mouse_down(MouseButtonId::ButtonLeft));
    assert!(input.is_mouse_pressed(MouseButtonId::ButtonLeft));
    assert!(input.is_mouse_released(MouseButtonId::ButtonLeft));
    assert!(input.has_mouse_button_pressed(MouseButtonId::ButtonLeft));
    assert!(!input.has_mouse_click(MouseButtonId::ButtonLeft));
    // a repeated down event changes nothing
    input.button(MouseButtonId::ButtonLeft, 50, 60, true);
    assert_eq!(input.mouse.buttons[0].clicked, 1);
    assert_eq!(input.mouse.buttons[0].clicked_pos.x, 10);
    input.button(MouseButtonId::ButtonLeft, 12, 22, false);
    assert!(input.has_mouse_click(MouseButtonId::ButtonLeft));
    assert_eq!(input.mouse.buttons[0].clicked, 2);
    assert_eq!(input.mouse.buttons[0].clicked_pos.y, 22);
    assert!(!input.is_mouse_down(MouseButtonId::ButtonRight));
    input.end();
    input.begin();
    assert!(!input.has_mouse_click(MouseButtonId::ButtonLeft));
    assert_eq!(input.mouse.prev.x, 10);
    assert_eq!(input.mouse.prev.y, 20);
}

#[test]
fn typed_text_is_capped() {
    let mut input = Input::new();
    input.begin();
    input.glyph('é');
    input.glyph_ascii(b'a');
    assert_eq!(input.keyboard.text_len, 2);
    assert_eq!(input.keyboard.text[0], 'é');
    assert_eq!(input.keyboard.text[1], 'a');
    for _ in 0..20 {
        input.glyph('x');
    }
    assert_eq!(input.keyboard.text_len, 16);
    input.begin();
    assert_eq!(input.keyboard.text_len, 0);
}

#[test]
fn grab_ends_with_the_frame() {
    let mut input = Input::new();
    input.mouse.grab = true;
    input.mouse.grabbed = true;
    input.end();
    assert!(!input.mouse.grab);
    assert!(input.mouse.grabbed);
    input.mouse.ungrab = true;
    input.end();
    assert!(!input.mouse.grabbed);
    assert!(!input.mouse.ungrab);
}

#[test]
fn window_names_hash_with_murmur() {
    assert_eq!(name_hash("Demo"), murmurhash64::murmur_hash64a(b"Demo", 64));
    assert_eq!(name_hash(""), murmurhash64::murmur_hash64a(b"", 64));
    assert_ne!(name_hash("Demo"), name_hash("Tools"));
}

#[test]
fn windows_are_created_focused_and_closed() {
    let mut ctx = UiContext::new();
    assert!(ctx.windows().is_empty());
    assert!(ctx.begin_window("Demo", flag(PanelFlags::WindowBorder)));
    assert_eq!(ctx.windows().len(), 1);
    assert_eq!(ctx.windows()[0].id.handle, 0);
    assert_eq!(ctx.windows()[0].id.name, name_hash("Demo"));
    assert_eq!(ctx.active_window(), Some(0));
    assert_eq!(ctx.current_window(), Some(0));
    assert!(ctx.window_has_focus());
    assert!(ctx.window_is_active("Demo"));
    ctx.end();
    assert_eq!(ctx.current_window(), None);
    assert!(!ctx.window_has_focus());

    // a new window goes to the front and takes the focus; the one below
    // becomes read only
    assert!(ctx.begin_window("Tools", BitFlags::empty()));
    ctx.end();
    assert_eq!(ctx.windows().len(), 2);
    assert_eq!(ctx.windows()[1].id.handle, 1);
    assert_eq!(ctx.active_window(), Some(1));
    assert!(ctx.windows()[0].flags.contains(flag(PanelFlags::WindowRom)));
    assert!(!ctx.windows()[1].flags.contains(flag(PanelFlags::WindowRom)));
    assert!(ctx.is_last_window(1));
    assert_eq!(ctx.window_find("Demo"), Some(0));
    assert_eq!(ctx.window_find("Tools"), Some(1));
    assert_eq!(ctx.window_find("Nope"), None);

    // focusing brings the window to the front
    ctx.window_set_focus("Demo");
    assert_eq!(ctx.active_window(), Some(0));
    assert_eq!(ctx.windows()[0].id.handle, 1);
    assert_eq!(ctx.windows()[1].id.handle, 0);
    assert!(ctx.windows()[0].flags.contains(flag(PanelFlags::WindowRom)));
    assert!(!ctx.windows()[1].flags.contains(flag(PanelFlags::WindowRom)));
    assert!(ctx.is_active_window(0));

    // the active window cannot be closed, another one can
    ctx.window_close("Demo");
    assert!(!ctx.window_is_closed("Demo"));
    assert!(!ctx.window_is_hidden("Demo"));
    ctx.window_close("Tools");
    assert!(ctx.window_is_closed("Tools"));
    assert!(ctx.window_is_hidden("Tools"));
    assert!(ctx.window_is_closed("Nope"));
    assert!(ctx.window_is_hidden("Nope"));
    assert!(!ctx.window_is_collapsed("Nope"));
    assert!(!ctx.window_is_active("Nope"));

    // focusing a missing window leaves no active window
    ctx.window_set_focus("Nope");
    assert_eq!(ctx.active_window(), None);
    ctx.window_set_focus("Demo");
    assert_eq!(ctx.active_window(), Some(0));
}

#[test]
fn collapse_and_show_read_back() {
    let mut ctx = UiContext::new();
    ctx.begin_window("Demo", BitFlags::empty());
    ctx.end();
    ctx.window_collapse("Demo", CollapseStates::Minimized);
    assert!(ctx.window_is_collapsed("Demo"));
    ctx.window_collapse("Demo", CollapseStates::Maximized);
    assert!(!ctx.window_is_collapsed("Demo"));
    ctx.window_show("Demo", ShowStates::Hidden);
    assert!(ctx.window_is_hidden("Demo"));
    ctx.window_show("Demo", ShowStates::Shown);
    assert!(!ctx.window_is_hidden("Demo"));
    // nothing happens for a missing window
    ctx.window_collapse("Nope", CollapseStates::Minimized);
    assert_eq!(ctx.windows().len(), 1);
}

#[test]
fn begin_window_on_an_existing_window() {
    let mut ctx = UiContext::new();
    ctx.begin_window("Demo", flag(PanelFlags::WindowDynamic).with(PanelFlags::WindowBorder));
    ctx.end();
    let visible = ctx.begin_window("Demo", flag(PanelFlags::WindowTitle));
    assert!(visible);
    assert_eq!(ctx.windows().len(), 1);
    // the dynamic option goes, the others stay and the new ones are added
    assert_eq!(ctx.windows()[0].flags.bits(), 0x41);
    assert_eq!(ctx.current_window(), Some(0));
    ctx.end();
    ctx.window_show("Demo", ShowStates::Hidden);
    assert!(!ctx.begin_window("Demo", BitFlags::empty()));
}

#[test]
fn background_windows_go_behind() {
    let mut ctx = UiContext::new();
    ctx.begin_window("Back", flag(PanelFlags::WindowBackground));
    ctx.end();
    assert_eq!(ctx.active_window(), Some(0));
    ctx.begin_window("Front", BitFlags::empty());
    ctx.end();
    assert_eq!(ctx.active_window(), Some(1));
    ctx.begin_window("Back2", flag(PanelFlags::WindowBackground));
    ctx.end();
    assert_eq!(ctx.windows().len(), 3);
    assert_eq!(ctx.windows()[0].id.handle, 2);
    assert_eq!(ctx.windows()[1].id.handle, 0);
    assert_eq!(ctx.windows()[2].id.handle, 1);
    // a background window does not take the focus
    assert_eq!(ctx.active_window(), Some(1));
}

#[test]
fn clear_drops_unused_and_closed_windows() {
    let mut ctx = UiContext::new();
    ctx.begin_window("Demo", BitFlags::empty());
    ctx.end();
    ctx.begin_window("Tools", BitFlags::empty());
    ctx.end();
    ctx.window_set_focus("Demo");
    ctx.window_close("Tools");
    assert_eq!(ctx.frame_seq(), 0);
    ctx.clear();
    assert_eq!(ctx.frame_seq(), 1);
    // the closed window is gone, the active one stays
    assert_eq!(ctx.windows().len(), 1);
    assert_eq!(ctx.windows()[0].id.handle, 0);
    assert_eq!(ctx.active_window(), Some(0));
    // a window not begun in a frame is dropped at its end
    ctx.clear();
    assert_eq!(ctx.frame_seq(), 2);
    assert!(ctx.windows().is_empty());
    assert_eq!(ctx.active_window(), None);
}

#[test]
fn clear_hands_the_focus_on() {
    let mut ctx = UiContext::new();
    ctx.begin_window("A", BitFlags::empty());
    ctx.end();
    ctx.begin_window("B", BitFlags::empty());
    ctx.end();
    assert_eq!(ctx.active_window(), Some(1));
    ctx.window_show("B", ShowStates::Hidden);
    ctx.clear();
    // the hidden active window hands the focus to the window below it,
    // which loses its read only option
    assert_eq!(ctx.active_window(), Some(0));
    assert_eq!(ctx.windows().len(), 2);
    assert!(!ctx.windows()[0].flags.contains(flag(PanelFlags::WindowRom)));
}

#[test]
fn build_draws_visible_windows_of_the_frame() {
    let mut ctx = UiContext::new();
    ctx.begin_window("A", BitFlags::empty());
    ctx.end();
    ctx.begin_window("B", BitFlags::empty());
    ctx.end();
    ctx.begin_window("C", BitFlags::empty());
    ctx.end();
    assert_eq!(ctx.build(&[true, true, true]), vec![0, 1, 2]);
    // a window without draw commands is left out
    assert_eq!(ctx.build(&[true, false, true]), vec![0, 2]);
    // so is a hidden one
    ctx.window_show("A", ShowStates::Hidden);
    assert_eq!(ctx.build(&[true, true, true]), vec![1, 2]);
    // and one not used in the current frame
    ctx.clear();
    ctx.begin_window("C", BitFlags::empty());
    ctx.end();
    let n = ctx.windows().len();
    let all = vec![true; n];
    assert_eq!(ctx.build(&all), vec![2]);
    assert_eq!(ctx.next_window_handle(), 3);
}

fn hover(bounds: bool, header: bool, popup: bool) -> WindowHover {
    WindowHover { bounds, header, popup }
}

#[test]
fn any_window_hovered() {
    let mut ctx = UiContext::new();
    ctx.begin_window("A", BitFlags::empty());
    ctx.end();
    ctx.begin_window("B", BitFlags::empty());
    ctx.end();
    let none = hover(false, false, false);
    assert!(!ctx.window_is_any_hovered(&[none, none]));
    assert!(ctx.window_is_any_hovered(&[none, hover(true, false, false)]));
    // a hidden window is never hovered
    ctx.window_show("B", ShowStates::Hidden);
    assert!(!ctx.window_is_any_hovered(&[none, hover(true, true, true)]));
    // a minimized window is hovered over its header only
    ctx.window_collapse("A", CollapseStates::Minimized);
    assert!(!ctx.window_is_any_hovered(&[hover(true, false, false), none]));
    assert!(ctx.window_is_any_hovered(&[hover(false, true, false), none]));
    // a popup counts only while it is active
    assert!(!ctx.window_is_any_hovered(&[hover(false, false, true), none]));
}

#[test]
fn current_window_hovered() {
    let mut ctx = UiContext::new();
    assert!(!ctx.window_is_hovered(true));
    ctx.begin_window("A", BitFlags::empty());
    assert!(ctx.window_is_hovered(true));
    assert!(!ctx.window_is_hovered(false));
    ctx.end();
    ctx.window_show("A", ShowStates::Hidden);
    ctx.begin_window("A", BitFlags::empty());
    assert!(!ctx.window_is_hovered(true));
}

#[test]
fn a_begun_window_is_found_by_its_name() {
    let mut ctx = UiContext::new();
    for name in ["A", "B", "C", "B", "A"] {
        let flags = if name == "C" { flag(PanelFlags::WindowBackground) } else { BitFlags::empty() };
        ctx.begin_window(name, flags);
        assert_eq!(ctx.window_find(name), ctx.current_window());
        ctx.end();
    }
    assert_eq!(ctx.windows().len(), 3);
}

#[test]
fn begin_window_shows_neither_minimized_nor_closed_windows() {
    let mut ctx = UiContext::new();
    assert!(!ctx.begin_window("Min", flag(PanelFlags::WindowMinimized)));
    ctx.end();
    assert!(!ctx.begin_window("Closed", flag(PanelFlags::WindowClosed)));
    ctx.end();
    assert!(ctx.begin_window("Open", flag(PanelFlags::WindowTitle)));
    ctx.end();
    ctx.window_collapse("Open", CollapseStates::Minimized);
    assert!(!ctx.begin_window("Open", BitFlags::empty()));
    ctx.end();
    ctx.window_collapse("Open", CollapseStates::Maximized);
    assert!(ctx.begin_window("Open", BitFlags::empty()));
}

#[test]
fn header_buttons_change_the_panel_options() {
    let closable = flag(PanelFlags::WindowClosable).with(PanelFlags::WindowMinimizable);
    let title = Some("title");
    // nothing fired: the options stay
    assert_eq!(Panel::header_flags(closable, title, false, false), closable);
    // minimize toggles
    let min = Panel::header_flags(closable, title, false, true);
    assert_eq!(min, closable.with(PanelFlags::WindowMinimized));
    assert_eq!(Panel::header_flags(min, title, false, true), closable);
    // close hides and takes the minimized option away
    assert_eq!(
        Panel::header_flags(min, title, true, false),
        closable.with(PanelFlags::WindowHidden)
    );
    // a read only window does not toggle
    let rom = closable.with(PanelFlags::WindowRom);
    assert_eq!(Panel::header_flags(rom, title, false, true), rom);
    // without a title there is no header
    assert_eq!(Panel::header_flags(closable, None, true, true), closable);
    // a window that cannot be closed ignores the close button
    let only_min = flag(PanelFlags::WindowMinimizable);
    assert_eq!(Panel::header_flags(only_min, title, true, false), only_min);
}

#[test]
fn windows_inserted_and_removed() {
    let mut ctx = UiContext::new();
    ctx.begin_window("A", BitFlags::empty());
    ctx.end();
    ctx.begin_window("B", BitFlags::empty());
    ctx.end();
    // B is in front and active; removing it hands the focus to A
    let b = ctx.remove_window(1).unwrap();
    assert_eq!(b.id.handle, 1);
    assert_eq!(ctx.windows().len(), 1);
    assert_eq!(ctx.active_window(), Some(0));
    assert!(!ctx.windows()[0].flags.contains(flag(PanelFlags::WindowRom)));
    assert!(ctx.remove_window(7).is_none());
    // back in at the front of the drawing order: behind A, and not active
    ctx.insert_window(b, WindowInsertLocation::Front);
    assert_eq!(ctx.windows()[0].id.handle, 1);
    assert_eq!(ctx.windows()[1].id.handle, 0);
    assert_eq!(ctx.active_window(), Some(0));
    // a window already in the list is not added twice
    let again = Window::new(1, name_hash("B"), "B", BitFlags::empty());
    ctx.insert_window(again, WindowInsertLocation::Back);
    assert_eq!(ctx.windows().len(), 2);
    // at the back it becomes active and the one before it read only
    let c = Window::new(ctx.next_window_handle() - 1, name_hash("B"), "B", BitFlags::empty());
    assert_eq!(c.id.handle, 1);
    let b = ctx.remove_window(1).unwrap();
    ctx.insert_window(b, WindowInsertLocation::Back);
    assert_eq!(ctx.windows()[1].id.handle, 1);
    assert_eq!(ctx.active_window(), Some(1));
    assert!(ctx.windows()[0].flags.contains(flag(PanelFlags::WindowRom)));
}

#[test]
fn glyph_beyond_a_full_text_is_dropped() {
    let mut input = Input::new();
    input.keyboard.text_len = 20;
    let before = input.keyboard.text;
    input.glyph('x');
    input.glyph_ascii(b'y');
    assert_eq!(input.keyboard.text_len, 20);
    assert_eq!(input.keyboard.text, before);
}

#[test]
fn window_with_a_handle_never_handed_out_is_inserted() {
    let mut ctx = UiContext::new();
    ctx.begin_window("A", BitFlags::empty());
    ctx.end();
    let stranger = Window::new(40, name_hash("S"), "S", BitFlags::empty());
    ctx.insert_window(stranger, WindowInsertLocation::Back);
    assert_eq!(ctx.windows().len(), 2);
    assert_eq!(ctx.windows()[1].id.handle, 40);
    assert_eq!(ctx.active_window(), Some(40));
    assert!(ctx.windows()[0].flags.contains(flag(PanelFlags::WindowRom)));
    let twin = Window::new(40, name_hash("T"), "T", BitFlags::empty());
    ctx.insert_window(twin, WindowInsertLocation::Front);
    assert_eq!(ctx.windows().len(), 2);
}
