use xdg_shell_wrapper::buffer::{
    attach_plan, shm_copy_range, Buffer, BufferAssignment, BufferError, BufferLayout,
    CachedBuffers, CopyError,
};
use xdg_shell_wrapper::config::{
    Anchor, Config, KeyboardInteractivity, Layer, LayerLayout, PanelOutput, SimpleWrapperConfig,
    XdgWrapperConfig, ANCHOR_BOTTOM, ANCHOR_LEFT, ANCHOR_RIGHT, ANCHOR_TOP, CENTER_PLUGIN_WEIGHT,
};
use xdg_shell_wrapper::dnd::{
    carry_actions, drag_pointer_input, offer_action, DndSeatState, DragEvent, DND_ASK, DND_COPY,
    DND_MOVE,
};
use xdg_shell_wrapper::events::{
    apply_layer_event, apply_popup_event, apply_simple_layer_event, LayerSurfaceEvent,
    PopupRenderEvent, RenderEvent, SimpleSpaceEvent, XdgPopupEvent,
};
use xdg_shell_wrapper::focus::{
    focus_enter, focus_leave, focus_mark_seat, focused_surface_of, FocusEntry, FocusStatus,
};
use xdg_shell_wrapper::geometry::{constrain_dim_by_min_max, constrain_dim_by_ranges, Point, Rectangle};
use xdg_shell_wrapper::launch::{
    command_from_words, exec_child, try_exec_child, hidden_pause, idle_pause, next_iteration, parse_args,
    popup_cleanup_due, render_loop_pause, EnvOp, LaunchArgs,
};
use xdg_shell_wrapper::layer::{
    commit_role, cursor_requests, dnd_icon_size, draw_dnd_icon, icon_frame_done, draw_layer_surfaces,
    layer_surface_committed, new_layer_surface, retain_alive, CommitRole, CursorBuffer,
    CursorRequest, DndIconSlot, ExclusiveZone, ProxiedLayerSurface, SurfaceState,
};
use xdg_shell_wrapper::output::{
    handle_named_output, handle_output, mode_ops, output_is_configured, plain_mode_ops,
    subpixel_of, ModeInfo, ModeOp, NamedOutput, OutputGroup, RendererOutputWork, Subpixel,
    WrapperOutput,
};
use xdg_shell_wrapper::pointer::{
    axis_source, pointer_frame, pointer_step, seat_pointer_frame, touch_down, touch_surface, AxisScroll,
    AxisSourceKind, PointerAction, PointerInput,
};
use xdg_shell_wrapper::popup::{WrapperPopup, WrapperPopupState};
use xdg_shell_wrapper::seat::{
    find_key_press_seat, find_keyboard_seat, find_pointer_seat, find_repeat_info_seat,
    initial_seat, new_capability, new_seat, release_intercepted, remove_capability, remove_seat,
    repeat_info_values, seat_handler, Capability, DesktopSeat, RepeatInfo, SeatPair,
};
use xdg_shell_wrapper::simple::{
    AddOutputError, SimpleWrapperSpace, SpawnError, Visibility,
};
use xdg_shell_wrapper::space::{ActiveState, Space, SpaceTopLevel};
use xdg_shell_wrapper::wire::{
    new_toplevel_plan, keyboard_wire_event, pointer_wire_event, AxisFrameData, KeyboardWireAction,
    KeyboardWireEvent, PointerWireAction, PointerWireEvent, ScrollAxis,
};

fn layout() -> LayerLayout {
    LayerLayout {
        anchor: Anchor::Bottom,
        layer: Layer::Top,
        keyboard_interactivity: KeyboardInteractivity::OnDemand,
        min_dimensions: Some((10, 20)),
        max_dimensions: Some((100, 200)),
    }
}

fn simple_config() -> SimpleWrapperConfig {
    let mut c = SimpleWrapperConfig::default();
    c.name = "applet".to_string();
    c.anchor = Anchor::Top;
    c.width_range = Some((5, 50));
    c.height_range = Some((7, 70));
    c.command = "app --flag".to_string();
    c
}

// ---- geometry ----

#[test]
fn rectangle_contains_includes_left_top_edges_only() {
    let r = Rectangle::from_loc_and_size(Point { x: 10, y: 20 }, 5, 5);
    assert!(r.contains(Point { x: 10, y: 20 }));
    assert!(r.contains(Point { x: 14, y: 24 }));
    assert!(!r.contains(Point { x: 15, y: 20 }));
    assert!(!r.contains(Point { x: 10, y: 25 }));
    assert_eq!(r.loc(), Point { x: 10, y: 20 });
}

#[test]
fn constrain_by_ranges_clamps_and_keeps_at_least_one() {
    assert_eq!(constrain_dim_by_ranges((0, 0), None, None), (1, 1));
    assert_eq!(constrain_dim_by_ranges((3, 300), Some((5, 50)), Some((7, 70))), (5, 70));
    assert_eq!(constrain_dim_by_ranges((20, 30), Some((5, 50)), Some((7, 70))), (20, 30));
}

#[test]
fn constrain_by_ranges_is_idempotent() {
    let once = constrain_dim_by_ranges((900, 2), Some((5, 50)), Some((7, 70)));
    assert_eq!(constrain_dim_by_ranges(once, Some((5, 50)), Some((7, 70))), once);
}

#[test]
fn constrain_by_min_max_clamps() {
    assert_eq!(constrain_dim_by_min_max((0, 0), Some((10, 20)), Some((100, 200))), (10, 20));
    assert_eq!(constrain_dim_by_min_max((500, 500), Some((10, 20)), Some((100, 200))), (100, 200));
    let once = constrain_dim_by_min_max((3, 900), Some((10, 20)), Some((100, 200)));
    assert_eq!(constrain_dim_by_min_max(once, Some((10, 20)), Some((100, 200))), once);
}

// ---- config ----

#[test]
fn anchor_bits_round_trip_for_edges() {
    for a in [Anchor::Left, Anchor::Right, Anchor::Top, Anchor::Bottom, Anchor::Center] {
        assert_eq!(Anchor::from_bits(a.to_bits()), a);
    }
    assert_eq!(Anchor::TopLeft.to_bits(), ANCHOR_TOP | ANCHOR_LEFT);
    assert_eq!(Anchor::BottomRight.to_bits(), ANCHOR_BOTTOM | ANCHOR_RIGHT);
    assert_eq!(Anchor::Center.to_bits(), 0);
}

#[test]
fn anchor_from_bits_tests_edges_first() {
    assert_eq!(Anchor::from_bits(ANCHOR_TOP | ANCHOR_LEFT), Anchor::Left);
    assert_eq!(Anchor::from_bits(ANCHOR_BOTTOM | ANCHOR_RIGHT), Anchor::Right);
    assert_eq!(Anchor::from_bits(0), Anchor::Center);
    assert_eq!(Anchor::default(), Anchor::Top);
}

#[test]
fn layer_and_interactivity_protocol_values() {
    assert_eq!(Layer::Background.value(), 0);
    assert_eq!(Layer::Overlay.value(), 3);
    assert_eq!(KeyboardInteractivity::NoFocus.value(), 0);
    assert_eq!(KeyboardInteractivity::OnDemand.value(), 2);
}

#[test]
fn simple_config_load_finds_named_or_default() {
    let stored = vec![("other".to_string(), SimpleWrapperConfig::default()), ("applet".to_string(), simple_config())];
    let c = SimpleWrapperConfig::load("applet", stored);
    assert_eq!(c.name, "applet");
    assert_eq!(c.dimensions(), (Some((5, 50)), Some((7, 70))));
    assert_eq!(c.applet(), "app --flag");
    let d = SimpleWrapperConfig::load("missing", Vec::new());
    assert_eq!(d.anchor, Anchor::Center);
    assert_eq!(d.dimensions(), (None, None));
    assert_eq!(d.output(), None);
}

#[test]
fn simple_config_write_stores_default_under_name() {
    let c = simple_config();
    let stored = vec![("applet".to_string(), simple_config())];
    let res = c.write("applet", stored);
    assert_eq!(res.len(), 1);
    assert_eq!(res[0].0, "applet");
    assert_eq!(res[0].1.width_range, None);
    let res2 = c.write("new", Vec::new());
    assert_eq!(res2.len(), 1);
    assert_eq!(res2[0].0, "new");
}

#[test]
fn panel_config_getters() {
    let mut c = Config::default();
    c.command = "cmd".to_string();
    c.output = PanelOutput::Name("DP-1".to_string());
    let center = c.plugins_center().unwrap();
    assert_eq!(center, vec![("cmd".to_string(), CENTER_PLUGIN_WEIGHT)]);
    assert_eq!(c.anchor(), Anchor::Center);
    assert_eq!(c.layer(), 2);
    assert_eq!(c.keyboard_interactivity(), 2);
    match c.output() {
        PanelOutput::Name(n) => assert_eq!(n, "DP-1"),
        _ => panic!("wrong output"),
    }
    let loaded = Config::load("x", vec![("x".to_string(), c)]);
    assert_eq!(loaded.command, "cmd");
}

#[test]
fn layout_setup_uses_protocol_values() {
    let s = layout().setup((30, 40));
    assert_eq!(s.layer, 2);
    assert_eq!(s.anchor, ANCHOR_BOTTOM);
    assert_eq!(s.keyboard_interactivity, 2);
    assert_eq!(s.size, (30, 40));
}

#[test]
fn xdg_wrapper_config_load_default() {
    let c = XdgWrapperConfig::load("none", Vec::new());
    assert_eq!(c.command, "");
    assert!(c.output.is_none());
}

// ---- events ----

#[test]
fn layer_events_close_wins_and_configure_acks() {
    let mut next = Some(RenderEvent::WaitConfigure);
    let ack = apply_layer_event(LayerSurfaceEvent::Configure { serial: 7, width: 10, height: 20 }, &mut next);
    assert_eq!(ack, Some(7));
    assert_eq!(next, Some(RenderEvent::Configure { width: 10, height: 20 }));
    let ack = apply_layer_event(LayerSurfaceEvent::Closed, &mut next);
    assert_eq!(ack, None);
    assert_eq!(next, Some(RenderEvent::Closed));
    let ack = apply_layer_event(LayerSurfaceEvent::Configure { serial: 8, width: 1, height: 1 }, &mut next);
    assert_eq!(ack, None);
    assert_eq!(next, Some(RenderEvent::Closed));
}

#[test]
fn simple_layer_event_after_quit_is_ignored() {
    let mut next = Some(SimpleSpaceEvent::Quit);
    let ack = apply_simple_layer_event(LayerSurfaceEvent::Configure { serial: 1, width: 2, height: 3 }, &mut next);
    assert_eq!(ack, None);
    assert_eq!(next, Some(SimpleSpaceEvent::Quit));
    let mut next = None;
    let ack = apply_simple_layer_event(LayerSurfaceEvent::Configure { serial: 1, width: 2, height: 3 }, &mut next);
    assert_eq!(ack, Some(1));
    assert_eq!(next, Some(SimpleSpaceEvent::Configure { width: 2, height: 3, serial: 1 }));
}

#[test]
fn popup_event_configure_gives_geometry() {
    let mut next = Some(PopupRenderEvent::WaitConfigure);
    let g = apply_popup_event(XdgPopupEvent::Configure { x: 1, y: 2, width: 3, height: 4 }, &mut next);
    assert_eq!(g, Some(Rectangle { x: 1, y: 2, w: 3, h: 4 }));
    assert_eq!(next, Some(PopupRenderEvent::Configure { x: 1, y: 2, width: 3, height: 4 }));
    let g = apply_popup_event(XdgPopupEvent::PopupDone, &mut next);
    assert_eq!(g, None);
    assert_eq!(next, Some(PopupRenderEvent::Closed));
}

// ---- focus ----

fn entry(surface: u64, seat: &str, status: FocusStatus) -> FocusEntry {
    FocusEntry { surface, seat: seat.to_string(), status }
}

#[test]
fn focus_enter_then_lookup_gives_surface() {
    let mut f = Vec::new();
    focus_enter(&mut f, 5, "seat0");
    assert_eq!(focused_surface_of(&f, "seat0"), Some(5));
    focus_enter(&mut f, 6, "seat0");
    assert_eq!(f.len(), 1);
    assert_eq!(focused_surface_of(&f, "seat0"), Some(6));
    assert_eq!(f[0].status, FocusStatus::Focused);
    focus_enter(&mut f, 7, "seat1");
    assert_eq!(f.len(), 2);
    assert_eq!(focused_surface_of(&f, "seat2"), None);
}

#[test]
fn focus_leave_marks_last_focused() {
    let mut f = vec![entry(5, "seat0", FocusStatus::Focused), entry(6, "seat1", FocusStatus::Focused)];
    assert!(focus_leave(&mut f, 6, 1234));
    assert_eq!(f[1].status, FocusStatus::LastFocused(1234));
    assert_eq!(f[1].surface, 6);
    assert_eq!(f[0].status, FocusStatus::Focused);
    assert!(!focus_leave(&mut f, 99, 1));
}

#[test]
fn focus_mark_seat_changes_status_only() {
    let mut f = vec![entry(5, "seat0", FocusStatus::LastFocused(3))];
    assert!(focus_mark_seat(&mut f, "seat0", FocusStatus::Focused));
    assert_eq!(f[0].surface, 5);
    assert_eq!(f[0].status, FocusStatus::Focused);
    assert!(!focus_mark_seat(&mut f, "other", FocusStatus::Focused));
}

// ---- pointer frames ----

fn no_scroll() -> AxisScroll {
    AxisScroll { discrete: 0, value_is_zero: true, value_is_positive: false, stop: false }
}

#[test]
fn pointer_enter_then_motion_hovers() {
    let mut hovered = Vec::new();
    let events = vec![
        PointerInput::Enter { surface: 3, x: 10, y: 11 },
        PointerInput::Motion { time: 100, x: 12, y: 13 },
        PointerInput::Press { time: 101, button: 0x110 },
    ];
    let actions = pointer_frame(&mut hovered, &mut None, "seat0", &events, 50);
    assert_eq!(
        actions,
        vec![
            PointerAction::Hover { surface: 3, x: 10, y: 11, event_time: None },
            PointerAction::Hover { surface: 3, x: 12, y: 13, event_time: Some(100) },
            PointerAction::Button { time: 101, button: 0x110, pressed: true },
        ]
    );
    assert_eq!(focused_surface_of(&hovered, "seat0"), Some(3));
}

#[test]
fn pointer_motion_without_hover_ends_frame() {
    let mut hovered = Vec::new();
    let events = vec![
        PointerInput::Motion { time: 1, x: 0, y: 0 },
        PointerInput::Release { time: 2, button: 1 },
    ];
    let actions = pointer_frame(&mut hovered, &mut None, "seat0", &events, 0);
    assert_eq!(actions, vec![PointerAction::EndFrame]);
}

#[test]
fn pointer_leave_marks_hovered_surface() {
    let mut hovered = vec![entry(3, "seat0", FocusStatus::Focused)];
    let a = pointer_step(&mut hovered, &mut None, "seat0", PointerInput::Leave { surface: 3 }, 77);
    assert_eq!(a, PointerAction::Leave { surface: 3 });
    assert_eq!(hovered[0].status, FocusStatus::LastFocused(77));
}

#[test]
fn pointer_axis_frame_parts() {
    let mut hovered = Vec::new();
    let h = AxisScroll { discrete: 2, value_is_zero: false, value_is_positive: true, stop: true };
    let a = pointer_step(
        &mut hovered,
        &mut None,
        "seat0",
        PointerInput::Axis { time: 5, horizontal: h, vertical: no_scroll(), source: Some(1) },
        0,
    );
    match a {
        PointerAction::Axis(plan) => {
            assert_eq!(plan.source, AxisSourceKind::Finger);
            assert_eq!(plan.time, 5);
            let hp = plan.horizontal.unwrap();
            assert_eq!(hp.discrete, Some(2));
            assert!(hp.value);
            assert!(plan.vertical.is_none());
        }
        _ => panic!("expected an axis frame"),
    }
    let skip = pointer_step(
        &mut hovered,
        &mut None,
        "seat0",
        PointerInput::Axis { time: 5, horizontal: h, vertical: no_scroll(), source: Some(9) },
        0,
    );
    assert_eq!(skip, PointerAction::Skip);
    assert_eq!(axis_source(3), Some(AxisSourceKind::WheelTilt));
    assert_eq!(axis_source(4), None);
}

// ---- seats ----

fn pair(seat: u64, kbd: Option<u64>, ptr: Option<u64>) -> SeatPair {
    SeatPair {
        name: format!("seat{}", seat),
        seat,
        kbd,
        ptr,
        server_kbd: kbd.is_some(),
        server_ptr: ptr.is_some(),
    }
}

#[test]
fn seat_capabilities_added_and_removed() {
    let mut seats = Vec::new();
    new_seat(&mut seats, 1, "seat0".to_string(), None, Some(11));
    assert!(!seats[0].server_kbd);
    assert!(seats[0].server_ptr);
    new_capability(&mut seats, 1, Capability::Keyboard, true, Some(21));
    assert_eq!(seats[0].kbd, Some(21));
    assert!(seats[0].server_kbd);
    remove_capability(&mut seats, 1, Capability::Pointer);
    assert!(!seats[0].server_ptr);
    assert_eq!(seats[0].ptr, Some(11));
    new_capability(&mut seats, 1, Capability::Touch, true, Some(5));
    assert_eq!(seats[0].kbd, Some(21));
}

#[test]
fn remove_seat_swaps_last_in() {
    let mut seats = vec![pair(1, None, None), pair(2, None, None), pair(3, None, None)];
    assert!(remove_seat(&mut seats, 1));
    assert_eq!(seats.iter().map(|s| s.seat).collect::<Vec<_>>(), vec![3, 2]);
    assert!(!remove_seat(&mut seats, 9));
}

#[test]
fn seat_lookups_follow_first_match() {
    let seats = vec![pair(1, Some(10), Some(20)), pair(2, Some(11), Some(21))];
    assert_eq!(find_pointer_seat(&seats, 21), Some(1));
    assert_eq!(find_keyboard_seat(&seats, 11), Some(1));
    assert_eq!(find_repeat_info_seat(&seats, 11), Some(1));
    // a key press goes to the first seat that has a keyboard only
    assert_eq!(find_key_press_seat(&seats, 11), None);
    assert_eq!(find_key_press_seat(&seats, 10), Some(0));
    let mut no_server = vec![pair(1, Some(10), Some(20))];
    no_server[0].server_kbd = false;
    assert_eq!(find_pointer_seat(&no_server, 20), None);
}

#[test]
fn repeat_info_and_escape() {
    assert_eq!(repeat_info_values(RepeatInfo::Repeat { rate: 25, delay: 600 }), (25, 600));
    assert_eq!(repeat_info_values(RepeatInfo::Disable), (0, 0));
    assert!(release_intercepted(0xff1b));
    assert!(!release_intercepted(0x61));
}

#[test]
fn seat_handler_adds_unknown_seat_and_binds() {
    let mut seats: Vec<DesktopSeat> = Vec::new();
    let plan = seat_handler(&mut seats, "seat0", true, false, false);
    assert!(plan.added);
    assert_eq!(plan.index, 0);
    assert!(plan.bind_keyboard && plan.bind_pointer);
    assert!(seats[0].has_kbd && seats[0].has_ptr);
    let plan = seat_handler(&mut seats, "seat0", false, false, false);
    assert!(!plan.added);
    assert!(plan.release_keyboard && plan.release_pointer);
    assert!(!seats[0].has_kbd);
}

// ---- event-callback input ----

#[test]
fn wire_axis_gathers_until_frame() {
    let mut st = AxisFrameData { frame: None, source: None, h_discrete: None, v_discrete: None };
    assert_eq!(pointer_wire_event(&mut st, PointerWireEvent::AxisSource { raw: 0 }), PointerWireAction::Nothing);
    assert_eq!(st.source, Some(AxisSourceKind::Wheel));
    pointer_wire_event(&mut st, PointerWireEvent::AxisDiscrete { axis: ScrollAxis::Vertical, discrete: -1 });
    let a = pointer_wire_event(&mut st, PointerWireEvent::Axis { time: 9, axis: ScrollAxis::Vertical });
    assert_eq!(a, PointerWireAction::SetValue(ScrollAxis::Vertical));
    assert_eq!(st.source, None);
    match pointer_wire_event(&mut st, PointerWireEvent::Frame) {
        PointerWireAction::SendFrame(f) => {
            assert_eq!(f.time, 9);
            assert_eq!(f.source, Some(AxisSourceKind::Wheel));
            assert_eq!(f.v_discrete, Some(-1));
            assert!(f.v_value && !f.h_value);
        }
        _ => panic!("expected a frame"),
    }
    assert!(st.frame.is_none() && st.v_discrete.is_none());
    assert_eq!(pointer_wire_event(&mut st, PointerWireEvent::Frame), PointerWireAction::Nothing);
}

#[test]
fn wire_buttons_and_keys() {
    let mut st = AxisFrameData { frame: None, source: None, h_discrete: None, v_discrete: None };
    assert_eq!(
        pointer_wire_event(&mut st, PointerWireEvent::Button { time: 1, button: 2, state: 1 }),
        PointerWireAction::Button { time: 1, button: 2, pressed: true }
    );
    assert_eq!(pointer_wire_event(&mut st, PointerWireEvent::Button { time: 1, button: 2, state: 7 }), PointerWireAction::Nothing);
    let mut focus = false;
    assert_eq!(keyboard_wire_event(&mut focus, Some(4), KeyboardWireEvent::Enter), KeyboardWireAction::Focus(Some(4)));
    assert!(focus);
    assert_eq!(
        keyboard_wire_event(&mut focus, Some(4), KeyboardWireEvent::Key { time: 3, key: 30, state: 0 }),
        KeyboardWireAction::Key { time: 3, key: 30, pressed: false }
    );
    assert_eq!(keyboard_wire_event(&mut focus, Some(4), KeyboardWireEvent::Leave), KeyboardWireAction::Focus(None));
    assert!(!focus);
}

// ---- drag and drop ----

#[test]
fn dnd_actions_carry_and_offer() {
    assert_eq!(carry_actions(DND_COPY | DND_ASK | 64), DND_COPY | DND_ASK);
    assert_eq!(carry_actions(carry_actions(7)), 7);
    assert_eq!(offer_action(DND_MOVE | DND_ASK), DND_MOVE);
    assert_eq!(offer_action(DND_COPY | DND_MOVE), DND_COPY);
    assert_eq!(offer_action(0), 0);
}

fn dnd_state() -> DndSeatState {
    DndSeatState {
        next_dnd_offer_is_mine: false,
        next_selection_offer_is_mine: false,
        dnd_offer: false,
        client_dnd_source: false,
        copy_paste_source: false,
        server_dnd_source: false,
        server_dnd_icon: false,
        client_dnd_icon: false,
    }
}

#[test]
fn dnd_own_selection_is_ignored_once() {
    let mut s = dnd_state();
    assert!(s.new_selection(true));
    assert!(!s.selection_offered(true));
    assert!(s.selection_offered(true));
    assert!(!s.selection_offered(false));
}

#[test]
fn dnd_started_then_own_offer_is_not_restarted() {
    let mut s = dnd_state();
    let plan = s.started(true, true, true);
    assert!(plan.create_source && plan.start_drag && plan.create_icon);
    assert!(!s.drag_entered(true));
    assert!(s.dnd_offer);
    assert!(s.source_ended());
    assert!(!s.server_dnd_icon && !s.client_dnd_icon);
    assert!(s.offer_finished());
    assert!(!s.offer_finished());
}

// ---- committed surfaces ----

#[test]
fn commit_roles() {
    assert_eq!(commit_role(Some("xdg_toplevel")), CommitRole::Toplevel);
    assert_eq!(commit_role(Some("xdg_popup")), CommitRole::Popup);
    assert_eq!(commit_role(Some("cursor_image")), CommitRole::CursorImage);
    assert_eq!(commit_role(Some("zwlr_layer_surface_v1")), CommitRole::LayerSurface);
    assert_eq!(commit_role(Some("dnd_icon")), CommitRole::DndIcon);
    assert_eq!(commit_role(Some("subsurface")), CommitRole::Other);
    assert_eq!(commit_role(None), CommitRole::Other);
}

#[test]
fn proxied_layer_surface_commit_and_draw() {
    let mut ls = Vec::new();
    assert!(new_layer_surface(&mut ls, false, 1, 2, (0, 0), 0, ExclusiveZone::Neutral).is_none());
    assert!(ls.is_empty());
    let setup = new_layer_surface(&mut ls, true, 1, 2, (0, 0), ANCHOR_LEFT | ANCHOR_RIGHT, ExclusiveZone::DontCare).unwrap();
    assert_eq!((setup.width, setup.height), (0, 1));
    assert_eq!((setup.egl_width, setup.egl_height), (1, 1));
    assert_eq!(setup.exclusive_zone, -1);
    assert_eq!(setup.anchor, Some(ANCHOR_LEFT | ANCHOR_RIGHT));
    assert_eq!(ls[0].state, SurfaceState::Waiting);
    assert_eq!(layer_surface_committed(&mut ls, 1, (0, 0), (0, 5)), None);
    assert_eq!(ls[0].state, SurfaceState::Waiting);
    assert_eq!(layer_surface_committed(&mut ls, 1, (0, 0), (30, 5)), Some((30, 5)));
    assert_eq!(ls[0].state, SurfaceState::Dirty);
    assert_eq!(layer_surface_committed(&mut ls, 1, (30, 5), (30, 5)), None);
    assert_eq!(draw_layer_surfaces(&mut ls), vec![2]);
    assert_eq!(ls[0].state, SurfaceState::Waiting);
    assert_eq!(draw_layer_surfaces(&mut ls), Vec::<u64>::new());
}

#[test]
fn proxied_layer_surface_waiting_first_and_retain() {
    let mut ls = vec![
        ProxiedLayerSurface { s_surface: 1, c_surface: 2, alive: true, state: SurfaceState::WaitingFirst },
        ProxiedLayerSurface { s_surface: 3, c_surface: 4, alive: false, state: SurfaceState::Dirty },
    ];
    assert_eq!(layer_surface_committed(&mut ls, 1, (0, 0), (9, 9)), None);
    assert_eq!(ls[0].state, SurfaceState::WaitingFirst);
    retain_alive(&mut ls);
    assert_eq!(ls.len(), 1);
    assert_eq!(ls[0].s_surface, 1);
    let setup = new_layer_surface(&mut ls, true, 5, 6, (-3, 4), 0, ExclusiveZone::Exclusive(12)).unwrap();
    assert_eq!((setup.width, setup.height), (1, 4));
    assert_eq!(setup.exclusive_zone, 12);
    assert_eq!(setup.anchor, Some(0));
}

#[test]
fn cursor_requests_per_pointer() {
    let seats = vec![pair(1, None, Some(20)), pair(2, Some(1), None), pair(3, None, Some(22))];
    let r = cursor_requests(&seats, CursorBuffer::NewShm, Some(Point { x: 1, y: 2 }));
    assert_eq!(
        r,
        vec![
            (20, CursorRequest::Attach { hotspot: Some(Point { x: 1, y: 2 }) }),
            (22, CursorRequest::Attach { hotspot: Some(Point { x: 1, y: 2 }) }),
        ]
    );
    assert_eq!(cursor_requests(&seats, CursorBuffer::NoNew, None), vec![(20, CursorRequest::Hide), (22, CursorRequest::Hide)]);
    assert!(cursor_requests(&seats, CursorBuffer::NewOther, None).is_empty());
}

#[test]
fn dnd_icon_draws_once_per_frame() {
    assert_eq!(dnd_icon_size((0, -2)), (1, 1));
    assert_eq!(dnd_icon_size((5, 6)), (5, 6));
    let mut slots = vec![
        DndIconSlot { client_icon: Some(7), has_server_icon: false, dirty: true, frame: Some(1) },
        DndIconSlot { client_icon: Some(8), has_server_icon: true, dirty: true, frame: Some(42) },
    ];
    assert_eq!(draw_dnd_icon(&mut slots), Some((1, 42)));
    assert!(!slots[1].dirty && slots[1].frame.is_none());
    assert_eq!(draw_dnd_icon(&mut slots), None);
    slots[1].dirty = true;
    assert_eq!(icon_frame_done(&mut slots, 8, 50), Some(1));
    assert_eq!(slots[1].frame, Some(50));
    assert_eq!(icon_frame_done(&mut slots, 99, 51), None);
    assert_eq!(draw_dnd_icon(&mut slots), Some((1, 50)));
}

// ---- outputs ----

#[test]
fn configured_outputs() {
    assert!(output_is_configured(&WrapperOutput::All, Some("DP-1")));
    assert!(!output_is_configured(&WrapperOutput::All, None));
    let named = WrapperOutput::Name(vec!["HDMI-1".to_string(), "DP-2".to_string()]);
    assert!(output_is_configured(&named, Some("DP-2")));
    assert!(!output_is_configured(&named, Some("DP-1")));
}

#[test]
fn subpixel_and_modes() {
    assert_eq!(subpixel_of(0), Subpixel::Unknown);
    assert_eq!(subpixel_of(1), Subpixel::NoGeometry);
    assert_eq!(subpixel_of(5), Subpixel::VerticalBgr);
    assert_eq!(subpixel_of(42), Subpixel::Unknown);
    let modes = vec![
        ModeInfo { width: 1920, height: 1080, refresh: 60000, preferred: true, current: true },
        ModeInfo { width: 1280, height: 720, refresh: 60000, preferred: false, current: false },
    ];
    assert_eq!(
        mode_ops(&modes),
        vec![
            ModeOp::SetPreferred { width: 1920, height: 1080, refresh: 60000 },
            ModeOp::SetCurrent { width: 1920, height: 1080, refresh: 60000 },
            ModeOp::Add { width: 1920, height: 1080, refresh: 60000 },
            ModeOp::Add { width: 1280, height: 720, refresh: 60000 },
        ]
    );
    assert_eq!(
        plain_mode_ops(&modes),
        vec![
            ModeOp::SetPreferred { width: 1920, height: 1080, refresh: 60000 },
            ModeOp::Add { width: 1280, height: 720, refresh: 60000 },
        ]
    );
}

#[test]
fn handle_output_new_then_obsolete() {
    let modes = vec![
        ModeInfo { width: 800, height: 600, refresh: 60000, preferred: true, current: false },
        ModeInfo { width: 640, height: 480, refresh: 60000, preferred: false, current: true },
    ];
    let mut groups = Vec::new();
    let mut surface = None;
    let w = handle_output(&mut groups, &mut surface, 1, 100, &modes, false);
    assert_eq!(w.create_on, Some(100));
    assert_eq!(surface, Some(1));
    assert_eq!(
        w.modes,
        vec![
            ModeOp::SetPreferred { width: 800, height: 600, refresh: 60000 },
            ModeOp::Add { width: 640, height: 480, refresh: 60000 },
        ]
    );
    let w = handle_output(&mut groups, &mut surface, 2, 200, &Vec::new(), false);
    assert_eq!(w.create_on, None);
    assert_eq!(groups, vec![OutputGroup { id: 1, output: 100 }, OutputGroup { id: 2, output: 200 }]);
    // the obsolete output is removed; the surface on another output stays
    let w = handle_output(&mut groups, &mut surface, 2, 200, &modes, true);
    assert!(w.release);
    assert!(w.modes.is_empty());
    assert_eq!(w.destroyed, vec![200]);
    assert_eq!(groups, vec![OutputGroup { id: 1, output: 100 }]);
    assert_eq!(w.create_on, None);
    assert_eq!(surface, Some(1));
    // the surface's own output going away moves it to the first output left
    handle_output(&mut groups, &mut surface, 3, 300, &Vec::new(), false);
    let w = handle_output(&mut groups, &mut surface, 1, 100, &Vec::new(), true);
    assert_eq!(w.destroyed, vec![100]);
    assert_eq!(groups, vec![OutputGroup { id: 3, output: 300 }]);
    assert_eq!(w.create_on, Some(300));
    assert_eq!(surface, Some(1));
}

#[test]
fn handle_output_keeps_surface_when_other_output_goes() {
    let mut groups = vec![OutputGroup { id: 1, output: 100 }, OutputGroup { id: 2, output: 200 }];
    let mut surface = Some(2);
    let w = handle_output(&mut groups, &mut surface, 1, 100, &Vec::new(), true);
    assert_eq!(surface, Some(2));
    assert_eq!(w.create_on, None);
    assert_eq!(groups, vec![OutputGroup { id: 2, output: 200 }]);
}

#[test]
fn handle_named_output_creates_renderer_on_preferred() {
    let mut groups: Vec<NamedOutput> = Vec::new();
    let (destroyed, work, _) = handle_named_output(&mut groups, "DP-1", None, "HDMI-1", 5, &Vec::new(), false);
    assert!(destroyed.is_empty());
    match work {
        RendererOutputWork::Create(t) => assert!(t.is_none()),
        _ => panic!("expected create"),
    }
    let modes = vec![ModeInfo { width: 1, height: 2, refresh: 3, preferred: false, current: false }];
    let (_, work, m) = handle_named_output(&mut groups, "DP-1", Some(None), "DP-1", 6, &modes, false);
    assert_eq!(m, vec![ModeOp::Add { width: 1, height: 2, refresh: 3 }]);
    match work {
        RendererOutputWork::SetOutput(Some((o, n))) => {
            assert_eq!(o, 6);
            assert_eq!(n, "DP-1");
        }
        _ => panic!("expected set output"),
    }
    // another output going away leaves the renderer where it is
    let (destroyed, work, _) = handle_named_output(&mut groups, "DP-1", Some(Some("DP-1")), "HDMI-1", 5, &Vec::new(), true);
    assert_eq!(destroyed, vec![5]);
    assert_eq!(groups.len(), 1);
    assert!(matches!(work, RendererOutputWork::Keep));
    // the renderer's own output going away moves it; none of the preferred name is left
    let (destroyed, work, _) = handle_named_output(&mut groups, "DP-1", Some(Some("DP-1")), "DP-1", 6, &Vec::new(), true);
    assert_eq!(destroyed, vec![6]);
    assert!(groups.is_empty());
    assert!(matches!(work, RendererOutputWork::SetOutput(None)));
}

// ---- popups ----

#[test]
fn wrapper_popup_takes_configured_rectangle() {
    let mut p = WrapperPopup {
        has_egl_surface: true,
        c_wl_surface: 1,
        s_surface: 2,
        alive: true,
        state: Some(WrapperPopupState::Rectangle { x: 3, y: 4, width: 50, height: 60 }),
        dirty: false,
        rectangle: Rectangle { x: 0, y: 0, w: 0, h: 0 },
        accumulated_damage: Vec::new(),
        full_clear: 0,
        wrapper_rectangle: Rectangle { x: 0, y: 0, w: 0, h: 0 },
    };
    let u = p.handle_events();
    assert!(u.alive);
    assert_eq!(u.resize, Some((50, 60)));
    assert_eq!(p.rectangle, Rectangle { x: 3, y: 4, w: 50, h: 60 });
    assert_eq!(p.full_clear, 4);
    assert!(p.dirty && p.state.is_none());
    let u = p.handle_events();
    assert_eq!(u.resize, None);
}

// ---- buffers ----

#[test]
fn buffer_cache_picks_exact_then_last_free_then_new() {
    let mut c = CachedBuffers::new();
    assert_eq!(c.index_of_pair_buffer(2, 3, 0), 0);
    assert_eq!(c.buffers[0], Buffer { free: true, pool_size: 24, w: 2, h: 3, format: 0 });
    c.buffers.push(Buffer::new(4, 4, 1));
    c.buffers.push(Buffer::new(8, 8, 1));
    assert_eq!(c.index_of_pair_buffer(4, 4, 1), 1);
    assert_eq!(c.index_of_pair_buffer(9, 9, 1), 2);
    for b in c.buffers.iter_mut() {
        b.mark_taken();
    }
    assert_eq!(c.index_of_pair_buffer(9, 9, 1), 3);
    assert_eq!(c.buffers.len(), 4);
    assert!(c.buffers[3].free());
}

#[test]
fn buffer_resizes_only_when_both_sides_change() {
    let mut b = Buffer::new(10, 10, 0);
    assert_eq!(b.prepare_write(10, 20, Some(0)), Ok(None));
    assert_eq!(b.w, 10);
    assert_eq!(
        b.prepare_write(20, 30, Some(0)),
        Ok(Some(BufferLayout { width: 20, height: 30, stride: 80, format: 0 }))
    );
    assert_eq!(b.pool_size, 2400);
    assert_eq!(b.prepare_write(2, 3, None), Err(BufferError::BadBufferFormat));
    assert_eq!((b.w, b.h, b.pool_size), (2, 3, 2400));
}

#[test]
fn buffer_assignments() {
    let mut c = CachedBuffers::new();
    assert_eq!(c.write_and_attach_buffer(BufferAssignment::Removed), Ok(None));
    assert_eq!(c.write_and_attach_buffer(BufferAssignment::NewOther), Err(BufferError::NotShm));
    assert_eq!(
        c.write_and_attach_buffer(BufferAssignment::NewShm { width: 2, height: 2, format: None }),
        Err(BufferError::UnsupportedFormat)
    );
    assert_eq!(
        c.write_and_attach_buffer(BufferAssignment::NewShm { width: 2, height: 2, format: Some(0) }),
        Ok(Some((0, None)))
    );
    let p = attach_plan(5, 3, 4);
    assert_eq!((p.x, p.y, p.offset), (0, 0, Some(Point { x: 3, y: 4 })));
    let p = attach_plan(4, 3, 4);
    assert_eq!((p.x, p.y, p.offset), (3, 4, None));
}

#[test]
fn shm_copy_ranges() {
    assert_eq!(shm_copy_range(100, 10, 2, 40), Ok((10, 90)));
    assert_eq!(shm_copy_range(100, -1, 2, 40), Err(CopyError::Negative));
}

// ---- launching ----

#[test]
fn exec_child_splits_shell_words() {
    let cmd = exec_child("app 'one two' three", 7, vec![("A".to_string(), "1".to_string())], false);
    assert_eq!(cmd.program, "app");
    assert_eq!(cmd.args, vec!["one two".to_string(), "three".to_string()]);
    let env: Vec<String> = cmd
        .env
        .iter()
        .map(|e| match e {
            EnvOp::Assign(k, v) => format!("{}={}", k, v),
            EnvOp::SetFd(k, fd) => format!("{}#{}", k, fd),
            EnvOp::Remove(k) => format!("-{}", k),
        })
        .collect();
    assert_eq!(env, vec!["A=1", "-WAYLAND_DISPLAY", "WAYLAND_SOCKET#7", "-WAYLAND_DEBUG"]);
    assert!(try_exec_child("   ", 7, Vec::new(), true).is_none());
    let kept = try_exec_child("x", 3, Vec::new(), true).unwrap();
    assert_eq!(kept.env.len(), 2);
}

#[test]
fn command_from_words_uses_first_word() {
    let cmd = command_from_words(vec!["a".to_string(), "b".to_string()], 1, Vec::new(), true).unwrap();
    assert_eq!(cmd.program, "a");
    assert_eq!(cmd.args, vec!["b".to_string()]);
    assert!(command_from_words(Vec::new(), 1, Vec::new(), true).is_none());
}

#[test]
fn launch_arguments() {
    let args = |v: &[&str]| v.iter().map(|s| s.to_string()).collect::<Vec<_>>();
    assert!(matches!(parse_args(&args(&["w"])), LaunchArgs::Usage));
    assert!(matches!(parse_args(&args(&["w", "--profile"])), LaunchArgs::Usage));
    match parse_args(&args(&["w", "-p", "panel"])) {
        LaunchArgs::Profile(p) => assert_eq!(p, "panel"),
        _ => panic!("expected profile"),
    }
    match parse_args(&args(&["w", "foot --server"])) {
        LaunchArgs::Exec(e) => assert_eq!(e, "foot --server"),
        _ => panic!("expected exec"),
    }
}

#[test]
fn loop_pacing() {
    assert_eq!(render_loop_pause(0), None);
    assert_eq!(render_loop_pause(1), Some(8));
    assert_eq!(render_loop_pause(120), Some(32));
    assert_eq!(render_loop_pause(2999), Some(128));
    assert_eq!(render_loop_pause(3000), None);
    assert_eq!(next_iteration(-1), 0);
    assert_eq!(next_iteration(99999), 99999);
    assert_eq!(idle_pause(0), Some(8));
    assert_eq!(idle_pause(599), Some(32));
    assert_eq!(idle_pause(5000), None);
    assert!(popup_cleanup_due(300_001));
    assert!(!popup_cleanup_due(300_000));
    assert_eq!(hidden_pause(true), Some(100));
    assert_eq!(hidden_pause(false), None);
}

// ---- simple wrapper space ----

#[test]
fn simple_space_add_output_once() {
    let mut s = SimpleWrapperSpace::new(simple_config());
    let setup = s.add_output(Some(3), 9, None).unwrap();
    assert_eq!(setup.size, (5, 7));
    assert_eq!(setup.anchor, ANCHOR_TOP);
    assert_eq!(s.dimensions, (5, 7));
    assert_eq!(s.next_render_event, Some(SimpleSpaceEvent::WaitConfigure { width: 5, height: 7 }));
    assert!(s.full_clear);
    assert_eq!(s.add_output(Some(3), 9, None).err(), Some(AddOutputError::AlreadyAdded));
    assert_eq!(s.visibility(), Visibility::Visible);
}

#[test]
fn simple_space_handle_events_steps() {
    let mut s = SimpleWrapperSpace::new(simple_config());
    s.add_output(None, 9, None).unwrap();
    s.full_clear = false;
    let w = s.handle_events(false);
    assert!(!w.render && w.resize.is_none());
    s.next_render_event = Some(SimpleSpaceEvent::Configure { width: 40, height: 30, serial: 2 });
    let w = s.handle_events(false);
    assert_eq!(w.resize, Some((40, 30)));
    assert_eq!(s.dimensions, (40, 30));
    assert!(s.full_clear && s.next_render_event.is_none());
    let w = s.handle_events(false);
    assert!(w.render);
    s.pending_dimensions = Some((45, 35));
    let w = s.handle_events(false);
    assert_eq!(w.request_size, Some((45, 35)));
    assert_eq!(s.next_render_event, Some(SimpleSpaceEvent::WaitConfigure { width: 45, height: 35 }));
    s.next_render_event = Some(SimpleSpaceEvent::Quit);
    let w = s.handle_events(false);
    assert!(w.kill_children && !w.exit);
    let w = s.handle_events(true);
    assert!(w.exit);
    s.full_clear = false;
    s.note_egl_size(Some((45, 35)));
    assert!(s.full_clear);
    s.full_clear = false;
    s.note_egl_size(Some((40, 30)));
    assert!(!s.full_clear);
}

#[test]
fn simple_space_refuses_second_spawn() {
    let mut s = SimpleWrapperSpace::new(simple_config());
    s.has_child = true;
    s.client = Some(4);
    assert_eq!(s.spawn_clients(), Err(SpawnError::AlreadySpawned));
    assert_eq!(s.client, Some(4));
}

#[test]
fn pointer_frame_records_last_button() {
    let mut hovered = Vec::new();
    let mut last = None;
    let events = vec![
        PointerInput::Press { time: 1, button: 0x110 },
        PointerInput::Release { time: 2, button: 0x111 },
        PointerInput::Motion { time: 3, x: 0, y: 0 },
        PointerInput::Press { time: 4, button: 0x112 },
    ];
    // the motion ends the frame (nothing hovered): the last press is not handled
    let actions = pointer_frame(&mut hovered, &mut last, "seat0", &events, 0);
    assert_eq!(actions.len(), 3);
    assert_eq!(last, Some(0x111));
}

// ---- space ----

fn window(id: u64, active: ActiveState) -> SpaceTopLevel {
    SpaceTopLevel {
        s_top_level: id,
        alive: true,
        dimensions: (10, 10),
        is_root: false,
        dirty: false,
        active,
        popups: Vec::new(),
    }
}

#[test]
fn cycle_active_leaves_one_active_window() {
    let (mut space, setup) = Space::new(None, layout(), 1, None);
    assert_eq!(setup.size, (10, 20));
    space.toplevels.push(window(1, ActiveState::ActiveFullyRendered(true)));
    space.toplevels.push(window(2, ActiveState::InactiveCleared(true)));
    space.toplevels.push(window(3, ActiveState::InactiveCleared(true)));
    space.cycle_active();
    let active: Vec<u64> = space
        .toplevels
        .iter()
        .filter(|t| matches!(t.active, ActiveState::ActiveFullyRendered(_)))
        .map(|t| t.s_top_level)
        .collect();
    assert_eq!(active, vec![2]);
    assert_eq!(space.focused_surface, Some(2));
    assert!(space.toplevels.iter().all(|t| t.dirty));
    space.cycle_active();
    space.cycle_active();
    assert_eq!(space.focused_surface, Some(1));
}

#[test]
fn touch_down_then_lookup() {
    let mut t = Vec::new();
    assert_eq!(touch_surface(&t, 1), None);
    touch_down(&mut t, 1, 10);
    touch_down(&mut t, 2, 20);
    touch_down(&mut t, 1, 11);
    assert_eq!(touch_surface(&t, 1), Some(11));
    assert_eq!(touch_surface(&t, 2), Some(20));
    assert_eq!(t.len(), 2);
}

#[test]
fn initial_seats_bind_what_they_have() {
    let mut seats = Vec::new();
    assert_eq!(initial_seat(&mut seats, "seat0", true, false, false), (true, false));
    assert_eq!(initial_seat(&mut seats, "seat1", true, true, true), (false, false));
    assert_eq!(seats.len(), 2);
    assert!(seats[0].has_kbd && !seats[0].has_ptr);
}

#[test]
fn new_toplevel_takes_surface_size_and_focus() {
    let seats = vec![
        DesktopSeat { name: "a".to_string(), has_kbd: true, has_ptr: true },
        DesktopSeat { name: "b".to_string(), has_kbd: false, has_ptr: true },
        DesktopSeat { name: "c".to_string(), has_kbd: true, has_ptr: false },
    ];
    let plan = new_toplevel_plan(Some((300, 40)), true, &seats);
    assert_eq!(plan.size, Some((300, 40)));
    assert_eq!(plan.focus_seats, vec![0, 2]);
    let plan = new_toplevel_plan(None, false, &seats);
    assert_eq!(plan.size, None);
    assert!(plan.focus_seats.is_empty());
}

#[test]
fn load_after_write_gives_default() {
    let stored = vec![("applet".to_string(), simple_config()), ("keep".to_string(), simple_config())];
    let written = simple_config().write("applet", stored);
    let loaded = SimpleWrapperConfig::load("applet", written);
    assert_eq!(loaded.command, "");
    assert_eq!(loaded.anchor, Anchor::Center);
    let stored = vec![("keep".to_string(), simple_config())];
    let written = simple_config().write("applet", stored);
    let kept = SimpleWrapperConfig::load("keep", written);
    assert_eq!(kept.command, "app --flag");
}

#[test]
fn drag_events_as_pointer_events() {
    assert_eq!(drag_pointer_input(DragEvent::Leave { surface: 4 }), PointerInput::Leave { surface: 4 });
    assert_eq!(
        drag_pointer_input(DragEvent::Motion { time: None, x: 3, y: 5 }),
        PointerInput::Motion { time: 0, x: 3, y: 5 }
    );
    assert_eq!(
        drag_pointer_input(DragEvent::Drop { time: Some(9) }),
        PointerInput::Release { time: 9, button: 0x110 }
    );
}

#[test]
fn seat_pointer_frame_needs_a_seat() {
    let seats = vec![pair(1, Some(10), Some(20)), pair(2, None, Some(21))];
    let mut hovered = Vec::new();
    let mut last = Some(5);
    let events = vec![PointerInput::Enter { surface: 3, x: 1, y: 2 }, PointerInput::Press { time: 1, button: 0x111 }];
    // the second seat has no embedded keyboard: nothing happens
    assert!(seat_pointer_frame(&seats, &mut hovered, &mut last, 21, &events, 0).is_none());
    assert!(hovered.is_empty());
    assert!(seat_pointer_frame(&seats, &mut hovered, &mut last, 99, &events, 0).is_none());
    assert_eq!(last, Some(5));
    let (i, actions) = seat_pointer_frame(&seats, &mut hovered, &mut last, 20, &events, 0).unwrap();
    assert_eq!(i, 0);
    assert_eq!(
        actions,
        vec![
            PointerAction::Hover { surface: 3, x: 1, y: 2, event_time: None },
            PointerAction::Button { time: 1, button: 0x111, pressed: true },
        ]
    );
    assert_eq!(focused_surface_of(&hovered, "seat1"), Some(3));
    assert_eq!(last, Some(0x111));
}
