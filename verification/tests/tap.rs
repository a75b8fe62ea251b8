//! The painter inside the shell.

use winbeautify::geometry::ScreenRect;
use winbeautify::tap::com::{
    com_add_ref, com_query_interface, com_release, describe_address, same_raw_identity,
    AddressOwner, Color, ParentChildRelation, QueryAnswer, SourceInfo, VisualElement, VtblPtr,
    IID_IAGILE_OBJECT, IID_IBORDER, IID_ICLASS_FACTORY, IID_IUNKNOWN, IID_IWEAK_REFERENCE_SOURCE,
    VISUAL_MUTATION_ADD, VISUAL_MUTATION_REMOVE,
};
use winbeautify::tap::effects::{
    CompositeEffect, FloodEffect, GaussianBlurEffect, Property,
};
use winbeautify::tap::logging::{
    debug_log, logger_step, report_drops, start, wide_line, Ring, Taken, WIDE_MAX,
};
use winbeautify::tap::protocol::{
    BrushKind, CommandKind, TapCommand, COPYDATA_MAGIC, PROTOCOL_VERSION,
};
use winbeautify::tap::service::{
    attach_blur, claimed_taskbars, commit_hairline, describe_bars, ensure_command_window,
    ensure_subclass, find_bar, frame_handles, handle_command, has_bars, has_unclaimed_taskbar,
    is_registered, mark_blur, perform_restore, register_taskbar, register_taskbar_background,
    register_taskbar_border, restore_all, restore_taskbar, retry_pending_hairline,
    schedule_rewalk, set_appearance, set_hairline, subclass_failed, tap_wndproc,
    unregister_taskbar, watch_worker, window_created, Appearance, BlurProgress, BlurStep,
    BrushWrite, CarrierKind, CommandAction, Paint, PaintStep, RestoreOp, Service, TapAction,
    TapMessage, ACRYLIC_BLUR_AMOUNT, DEFAULT_BLUR_AMOUNT, REWALK_MAX_ATTEMPTS, TIMER_REWALK,
};
use winbeautify::tap::site::{
    can_unload_now, connection_name, create_ready_event, get_class_object, install_inner,
    install_thread, is_explorer, module_path_complete, tap_hook_proc, Answer, ClassFactory,
    Install, SiteProbe, TapSite, EVENT_NAME_MAX, INSTALL_ATTEMPTS, TAP_CLSID,
};
use winbeautify::tap::sprites::{BlurSprites, DetachCall};
use winbeautify::tap::watcher::{
    advised, claim_frame, classify, register_background_border, register_rectangle,
    taskbar_by_size, taskbar_for_frame, taskbar_of_window, Added, Claim, Climb, ClimbStep,
    Element, ElementClass, FrameWalk, RectangleUse, Rewalk, SourceMatch, TaskbarWindow,
    TreeChange, Watcher, CLAIM_BURST, RECTANGLE_TYPE, REWALK_LIMIT, TASKBAR_FRAME_TYPE,
    WALK_LIMIT, XAML_SOURCE_TYPE,
};

#[test]
fn command_is_a_fixed_layout_of_scalars() {
    // The record is copied byte for byte; padding surprises would corrupt the command on
    // the other side. The handle-sized `taskbar` field makes it 32 bytes with 8-byte
    // alignment.
    assert_eq!(std::mem::size_of::<TapCommand>(), 32);
    assert_eq!(std::mem::align_of::<TapCommand>(), 8);
    let mut cmd = TapCommand::new(CommandKind::SetAppearance);
    cmd.taskbar = 0x1122_3344_5566_7788;
    cmd.worker_pid = 0xA1B2_C3D4;
    let wire = cmd.to_bytes();
    assert_eq!(wire.len(), 32);
    assert_eq!(wire[8..16], 0x1122_3344_5566_7788u64.to_le_bytes());
    assert_eq!(wire[28..32], 0xA1B2_C3D4u32.to_le_bytes());
}

#[test]
fn set_command_fills_every_field() {
    let mut cmd = TapCommand::new(CommandKind::SetAppearance);
    cmd.taskbar = 0x1234;
    cmd.brush = BrushKind::Acrylic.code();
    cmd.argb = 0x8010_2030;
    cmd.blur_amount = 3.0f32.to_bits();
    cmd.worker_pid = 42;

    assert_eq!(cmd.version, PROTOCOL_VERSION);
    assert_eq!(cmd.command, CommandKind::SetAppearance.code());
    assert_eq!(cmd.brush, BrushKind::Acrylic.code());
}

/// The hairline rides in `argb` of an existing command rather than in a new field, which is
/// what lets it reach a painter that was loaded before this version of the host existed.
#[test]
fn the_hairline_command_needs_no_extra_field() {
    let mut cmd = TapCommand::new(CommandKind::SetHairline);
    cmd.taskbar = 0x1234;
    cmd.argb = 1; // show; 0 would hide
    assert_eq!(cmd.command, 4);
    assert_eq!(std::mem::size_of::<TapCommand>(), 32);
}

#[test]
fn a_copied_record_gives_the_command_back() {
    let mut cmd = TapCommand::new(CommandKind::Restore);
    cmd.taskbar = u64::MAX - 5;
    cmd.argb = 0x8010_2030;
    let wire = cmd.to_bytes();
    assert_eq!(TapCommand::from_copy(COPYDATA_MAGIC as u64, Some(&wire)), Some(cmd));
    assert_eq!(TapCommand::from_copy(1, Some(&wire)), None, "no marker");
    assert_eq!(TapCommand::from_copy(COPYDATA_MAGIC as u64, None), None, "no data");
    assert_eq!(
        TapCommand::from_copy(COPYDATA_MAGIC as u64, Some(&vec![0; 31])),
        None,
        "another size"
    );
    for kind in [
        CommandKind::Restore,
        CommandKind::RestoreAll,
        CommandKind::SetAppearance,
        CommandKind::SetHairline,
    ] {
        assert_eq!(CommandKind::from_code(kind.code()), Some(kind));
    }
    assert_eq!(CommandKind::from_code(9), None);
    assert_eq!(BrushKind::from_code(77), BrushKind::Blur);
    assert_eq!(BrushKind::from_code(0), BrushKind::Solid);
}

#[test]
fn commands_of_another_version_are_rejected() {
    let mut cmd = TapCommand::new(CommandKind::SetHairline);
    cmd.argb = 1;
    assert_eq!(handle_command(&cmd).0, CommandAction::Hairline { visible: true });
    cmd.argb = 0;
    assert_eq!(handle_command(&cmd).0, CommandAction::Hairline { visible: false });
    cmd.version = 2;
    assert_eq!(handle_command(&cmd).0, CommandAction::Reject);
    let mut unknown = TapCommand::new(CommandKind::Restore);
    unknown.command = 12;
    assert_eq!(handle_command(&unknown).0, CommandAction::Reject);
    assert_eq!(
        handle_command(&TapCommand::new(CommandKind::RestoreAll)).0,
        CommandAction::RestoreAll
    );
    assert_eq!(handle_command(&TapCommand::new(CommandKind::Restore)).0, CommandAction::Restore);
    assert_eq!(
        handle_command(&TapCommand::new(CommandKind::SetAppearance)).0,
        CommandAction::Appearance
    );
}

#[test]
fn a_hidden_hairline_waits_for_the_shells_brush() {
    let mut svc = Service::new();
    window_created(&mut svc, 50);
    register_taskbar(&mut svc, 7, 70);
    // The host wants it hidden before the shell has painted it.
    set_hairline(&mut svc, 70, false, &Vec::new());
    let early = register_taskbar_border(&mut svc, 7, 300, &vec![None, None]);
    let plan = early.plan.expect("a wanted state is applied at once");
    assert!(plan.writes.is_empty() && plan.retry, "nothing is cleared before it was read");
    // Once the brush is there, it is captured and cleared.
    let late = retry_pending_hairline(&mut svc, &vec![vec![Some(901), Some(902)]]);
    assert!(!late.retry);
    assert!(late.writes.iter().all(|write| write.brush == 0 && write.target == 300));
    assert_eq!(late.writes.len(), 2);
    // Showing it again puts the shell's own brushes back.
    let shown = set_hairline(&mut svc, 70, true, &vec![None, None]).plan.unwrap();
    assert_eq!(
        shown.writes,
        vec![
            BrushWrite { kind: CarrierKind::RectangleFill, target: 300, brush: 901 },
            BrushWrite { kind: CarrierKind::RectangleStroke, target: 300, brush: 902 },
        ]
    );
    assert!(commit_hairline(&vec![false, true]) && !commit_hairline(&vec![false]));
}

#[test]
fn painting_captures_the_fill_that_a_restore_puts_back() {
    let mut svc = Service::new();
    register_taskbar(&mut svc, 7, 70);
    let mut cmd = TapCommand::new(CommandKind::SetAppearance);
    cmd.brush = BrushKind::Acrylic.code();
    cmd.argb = 0x8010_2030;
    assert_eq!(
        set_appearance(&mut svc, &cmd, 71, None, &Vec::new()),
        Appearance::NoTaskbar
    );
    assert_eq!(
        set_appearance(&mut svc, &cmd, 70, None, &Vec::new()),
        Appearance::NotReady
    );
    register_taskbar_background(&mut svc, 7, 400);
    let ready = set_appearance(&mut svc, &cmd, 70, Some(55), &Vec::new());
    let color = Color { a: 0x80, r: 0x10, g: 0x20, b: 0x30 };
    match ready {
        Appearance::Ready(paint) => {
            assert_eq!((paint.shape, paint.color), (400, color));
            assert_eq!(paint.start(), PaintStep::AttachBlur { blur_amount: ACRYLIC_BLUR_AMOUNT });
            assert_eq!(paint.after_blur(true), PaintStep::Tint { color });
            assert_eq!(paint.after_blur(false), PaintStep::FillSolid { color });
        }
        _ => panic!("the rectangle is there"),
    }
    mark_blur(&mut svc, 400, true);
    let plan = restore_taskbar(&mut svc, 70).unwrap();
    assert_eq!(
        perform_restore(&plan),
        vec![RestoreOp::Detach { shape: 400 }, RestoreOp::Fill { shape: 400, brush: 55 }]
    );
    // The blur is off now.
    let again = restore_all(&mut svc);
    assert_eq!(perform_restore(&again), vec![RestoreOp::Fill { shape: 400, brush: 55 }]);
    assert!(restore_taskbar(&mut svc, 71).is_none());
    let plain = Paint { shape: 1, brush: BrushKind::Solid, color, blur_amount: 0 };
    assert_eq!(plain.start(), PaintStep::FillSolid { color });
    let mut default = cmd;
    default.brush = BrushKind::Blur.code();
    match set_appearance(&mut svc, &default, 70, None, &Vec::new()) {
        Appearance::Ready(paint) => assert_eq!(paint.blur_amount, DEFAULT_BLUR_AMOUNT),
        _ => panic!("the rectangle is there"),
    }
}

#[test]
fn the_blur_graph_is_built_in_order() {
    let mut step = BlurStep::Compositor;
    let mut steps = 1;
    loop {
        assert!(
            step == BlurStep::SetSize || matches!(attach_blur(step, false), BlurProgress::Failed)
        );
        match attach_blur(step, true) {
            BlurProgress::Next(next) => step = next,
            BlurProgress::Mounted => break,
            BlurProgress::Failed => panic!("a step that went well failed"),
        }
        steps += 1;
    }
    assert_eq!((steps, step), (11, BlurStep::SetChildVisual));
    assert!(matches!(attach_blur(BlurStep::SetSize, false), BlurProgress::Next(_)));
}

#[test]
fn a_mounted_blur_is_taken_down_brush_first() {
    let mut sprites = BlurSprites::new();
    assert_eq!(sprites.remember(400, 9), None);
    assert_eq!(sprites.remember(400, 10), Some(9));
    assert_eq!(
        sprites.detach(400),
        vec![DetachCall::NullBrush(10), DetachCall::ClearChildVisual(400)]
    );
    assert_eq!(sprites.detach(400), vec![DetachCall::ClearChildVisual(400)]);
}

#[test]
fn bars_are_registered_under_their_frames() {
    let mut svc = Service::new();
    assert!(!has_bars(&svc));
    register_taskbar(&mut svc, 7, 70);
    register_taskbar(&mut svc, 8, 80);
    assert!(has_bars(&svc) && is_registered(&svc, 8) && !is_registered(&svc, 9));
    assert_eq!(frame_handles(&svc), vec![7, 8]);
    assert_eq!(claimed_taskbars(&svc), vec![70, 80]);
    assert_eq!(find_bar(&svc, 80), Some(8));
    assert_eq!(find_bar(&svc, 81), None);
    assert!(has_unclaimed_taskbar(&svc, &vec![70, 90]));
    assert!(!has_unclaimed_taskbar(&svc, &vec![70, 80]));
    assert!(!describe_bars(&svc).is_empty());
    unregister_taskbar(&mut svc, 7);
    assert_eq!(frame_handles(&svc), vec![8]);
}

#[test]
fn the_delayed_walk_arms_itself_so_many_times() {
    let mut svc = Service::new();
    assert!(!schedule_rewalk(&mut svc), "there is no window to run it on");
    assert!(ensure_command_window(&svc));
    window_created(&mut svc, 50);
    assert!(!ensure_command_window(&svc));
    for _ in 0..REWALK_MAX_ATTEMPTS {
        assert!(schedule_rewalk(&mut svc));
    }
    assert!(!schedule_rewalk(&mut svc));
    assert_eq!(tap_wndproc(&mut svc, TapMessage::Timer { id: TIMER_REWALK }), TapAction::Rewalk);
    assert_eq!(tap_wndproc(&mut svc, TapMessage::Timer { id: 9 }), TapAction::Default);
    assert_eq!(tap_wndproc(&mut svc, TapMessage::CopyData), TapAction::Command);
    assert_eq!(tap_wndproc(&mut svc, TapMessage::RestoreAll), TapAction::RestoreAll);
    assert_eq!(tap_wndproc(&mut svc, TapMessage::NcDestroy), TapAction::Default);
    assert!(ensure_command_window(&svc));
    assert!(ensure_subclass(&mut svc, 70));
    assert!(!ensure_subclass(&mut svc, 70));
    subclass_failed(&mut svc, 70);
    assert!(ensure_subclass(&mut svc, 70));
    watch_worker(&mut svc, 1234);
    assert_eq!(svc.worker_pid, 1234);
    assert_eq!(watch_worker(&mut svc, 0), None);
    assert_eq!(svc.worker_pid, 1234);
}

#[test]
fn a_colour_is_its_bytes() {
    assert_eq!(Color::from_argb(0x8010_2030), Color { a: 0x80, r: 0x10, g: 0x20, b: 0x30 });
    let element = VisualElement {
        handle: 1,
        src_info: SourceInfo {
            file_name: 0,
            line_number: 0,
            column_number: 0,
            char_position: 0,
            hash: 8,
        },
        class_name: 5,
        name: 0,
        num_children: 0,
    };
    assert_eq!(element.owned_strings(), vec![5, 8]);
    assert!(same_raw_identity(Some(4), Some(4)));
    assert!(!same_raw_identity(None, None));
}

#[test]
fn objects_answer_for_their_interfaces() {
    let supported = vec![IID_ICLASS_FACTORY];
    let mut count = 1;
    assert_eq!(
        com_query_interface(&supported, false, Some(IID_IUNKNOWN), true, &mut count),
        QueryAnswer::Itself
    );
    assert_eq!(
        com_query_interface(&supported, false, Some(IID_ICLASS_FACTORY), true, &mut count),
        QueryAnswer::Itself
    );
    assert_eq!(count, 3);
    assert_eq!(
        com_query_interface(&supported, false, Some(IID_IBORDER), true, &mut count),
        QueryAnswer::NoInterface
    );
    assert_eq!(
        com_query_interface(&supported, false, None, true, &mut count),
        QueryAnswer::Fail
    );
    assert_eq!(
        com_query_interface(&supported, true, Some(IID_IAGILE_OBJECT), true, &mut count),
        QueryAnswer::Itself
    );
    assert_eq!(
        com_query_interface(&supported, true, Some(IID_IWEAK_REFERENCE_SOURCE), true, &mut count),
        QueryAnswer::WeakReferenceSource
    );
    let mut count = 1;
    assert_eq!(com_add_ref(&mut count), 2);
    assert!(!com_release(&mut count).1);
    assert!(com_release(&mut count).1, "the last one frees it");
}

#[test]
fn addresses_are_named_by_their_module() {
    assert_eq!(describe_address(0, &None), "null");
    assert_eq!(describe_address(0x1f, &None), "0x1f (in no loaded module)");
    let owner = Some(AddressOwner { name: "a.dll".to_string(), base: 0x1000 });
    assert_eq!(describe_address(0x10ab, &owner), "a.dll+0xab");
    assert_eq!(describe_address(0x0fff, &owner), "a.dll 0xfff");
}

#[test]
fn effects_answer_for_their_properties() {
    let blur = GaussianBlurEffect::new(5, 77);
    assert_eq!(blur.get_property(0), Property::Single(5));
    assert_eq!(blur.get_property(1), Property::Unsigned(0));
    assert_eq!((blur.get_source(0), blur.get_source(1)), (Some(77), None));
    assert_eq!(blur.named_property("BlurAmount"), Some(0));
    assert_eq!(blur.named_property("Color"), None);
    assert_eq!((blur.source_count(), blur.property_count()), (1, 3));
    let flood = FloodEffect::new([1, 2, 3, 4]);
    assert_eq!(flood.get_property(0), Some(Property::Singles([1, 2, 3, 4])));
    assert_eq!(flood.get_property(1), None);
    assert_eq!((flood.source_count(), flood.property_count()), (0, 1));
    assert_eq!(flood.named_property("Color"), Some(0));
    assert_eq!(flood.get_source(0), None);
    let both = CompositeEffect::new(vec![5, 6]);
    assert_eq!((both.get_source(1), both.get_source(2)), (Some(6), None));
    assert_eq!((both.source_count(), both.property_count()), (2, 1));
    assert_eq!(both.get_property(0), Some(Property::Unsigned(0)));
    assert_eq!(both.named_property("Mode"), Some(0));
}

#[test]
fn only_the_first_site_starts_a_watcher() {
    let mut site = TapSite { vtable: VtblPtr(1), site: 0, ref_count: 1 };
    let mut taken = false;
    let offer = SiteProbe { adopted: true, speaks_diagnostics: true, kept: Some(9) };
    assert_eq!(site.set_site(&mut taken, None), (Answer::Success, false));
    assert!(!taken);
    assert_eq!(site.set_site(&mut taken, Some(offer)).1, true);
    assert!(taken && site.site == 9);
    assert_eq!(site.set_site(&mut taken, Some(offer)).1, false);
    assert_eq!(site.get_site(true, true), Some(9));
    assert_eq!(site.get_site(false, true), None);
}

#[test]
fn the_class_is_handed_out_by_its_factory() {
    let mut factory = ClassFactory::factory(VtblPtr(3));
    assert_eq!(
        get_class_object(&mut factory, Some(TAP_CLSID), Some(IID_ICLASS_FACTORY), true),
        Answer::Success
    );
    assert_eq!(
        get_class_object(&mut factory, Some(1), Some(IID_ICLASS_FACTORY), true),
        Answer::ClassNotAvailable
    );
    let (answer, made) =
        ClassFactory::create_instance(false, Some(IID_IUNKNOWN), true, VtblPtr(4));
    assert_eq!(answer, Answer::Success);
    assert!(made.is_some());
    assert_eq!(
        ClassFactory::create_instance(true, Some(IID_IUNKNOWN), true, VtblPtr(4)).0,
        Answer::NoAggregation
    );
    assert_eq!(ClassFactory::lock_server(), Answer::Success);
    assert_eq!(can_unload_now(), Answer::NoEffect);
}

fn wide(text: &str) -> Vec<u16> {
    text.encode_utf16().collect()
}

#[test]
fn connecting_rotates_the_name() {
    assert_eq!(connection_name(3), "VisualDiagConnection3");
    assert_eq!(install_inner(1, true), Install::Connected);
    assert_eq!(install_inner(1, false), Install::Retry { attempt: 2 });
    assert_eq!(install_inner(INSTALL_ATTEMPTS, false), Install::GiveUp);
    let mut started = true;
    assert!(!install_thread(true, &mut started) && started);
    assert!(install_thread(false, &mut started) && !started);
    let mut started = false;
    assert!(!tap_hook_proc(-1, &mut started, true) && !started);
    assert!(tap_hook_proc(0, &mut started, true) && started);
    assert!(!tap_hook_proc(0, &mut started, true), "only once");
    assert!(is_explorer(&wide("C:\\Windows\\Explorer.EXE")));
    assert!(!is_explorer(&wide("C:\\Windows\\notepad.exe")));
    assert!(module_path_complete(5, 260) && !module_path_complete(260, 260));
    let name = create_ready_event(&wide("Ready"));
    assert_eq!(name.len(), EVENT_NAME_MAX);
    assert_eq!(&name[..6], &[82, 101, 97, 100, 121, 0]);
}

#[test]
fn a_new_island_is_matched_with_its_frame() {
    let mut watcher = Watcher::new();
    let relation = ParentChildRelation { parent: 30, child: 31, child_index: 0 };
    let added =
        watcher.handle_tree_change(relation, 40, XAML_SOURCE_TYPE, "", VISUAL_MUTATION_ADD);
    assert_eq!(added, TreeChange::Added(Added::Nothing));
    assert_eq!(watcher.pending_sources.len(), 1);
    assert!(watcher.pending_sources.contains(&40));
    let frame =
        watcher.handle_tree_change(relation, 41, TASKBAR_FRAME_TYPE, "", VISUAL_MUTATION_ADD);
    assert_eq!(frame, TreeChange::Added(Added::Frame { frame: 41, root: 30 }));
    let compared = vec![
        SourceMatch { source: 39, matched: false, window: None },
        SourceMatch { source: 40, matched: true, window: Some(70) },
    ];
    assert_eq!(watcher.find_source_for(&compared), Some(70));
    assert!(watcher.pending_sources.is_empty());
    let rectangle = watcher.on_added(relation, 42, RECTANGLE_TYPE, "BackgroundFill");
    assert_eq!(
        rectangle,
        Added::Rectangle { rectangle: 42, below: 30, background: true }
    );
    let gone = watcher.handle_tree_change(relation, 41, "", "", VISUAL_MUTATION_REMOVE);
    assert_eq!(gone, TreeChange::Removed { handle: 41 });
    assert_eq!(classify("Taskbar.TaskbarFrame"), ElementClass::TaskbarFrame);
    assert_eq!(classify("Something"), ElementClass::Other);
}

#[test]
fn claims_come_in_a_burst_and_then_seldom() {
    let mut watcher = Watcher::new();
    for _ in 0..CLAIM_BURST {
        assert!(watcher.claim_is_due(1_000, true, false));
        watcher.begin_claim();
    }
    assert!(watcher.claim_is_due(1_000, true, false));
    assert!(!watcher.claim_is_due(1_499, true, false), "too soon after the last walk");
    assert!(watcher.claim_is_due(1_500, true, false));
    assert!(!watcher.claim_is_due(2_500, false, true), "every taskbar is claimed");
    assert_eq!(
        claim_frame(Some(7), false, Some(70)),
        Claim::Register { frame: 7, taskbar: 70 }
    );
    assert_eq!(claim_frame(Some(7), true, Some(70)), Claim::Nothing);
    assert_eq!(claim_frame(Some(7), false, None), Claim::NoTaskbar);
    assert_eq!(claim_frame(None, false, Some(70)), Claim::Nothing);
    assert_eq!(taskbar_of_window(0), None);
    assert_eq!(taskbar_for_frame(Some(1), Some(2)), Some(1));
    assert_eq!(taskbar_for_frame(None, Some(2)), Some(2));
    assert_eq!(advised(true, 5), (true, true));
    assert_eq!(advised(true, 0), (true, false));
}

#[test]
fn a_climb_stops_at_its_class_or_its_reach() {
    let mut climb = Climb::new(ElementClass::TaskbarFrame, 3, true);
    assert_eq!(climb.look("Grid"), ClimbStep::Up);
    assert_eq!(climb.look(TASKBAR_FRAME_TYPE), ClimbStep::Found);
    assert_eq!(climb.chain, "Grid <- Taskbar.TaskbarFrame");
    let mut short = Climb::new(ElementClass::TaskbarFrame, 1, false);
    assert_eq!(short.look("Grid"), ClimbStep::GiveUp);
    assert_eq!(short.chain, "");
}

#[test]
fn a_frame_is_matched_to_the_taskbar_of_its_size() {
    let windows = vec![
        TaskbarWindow {
            handle: 70,
            dpi: 96,
            children: vec![ScreenRect { left: 0, top: 0, right: 1920, bottom: 48 }],
        },
        TaskbarWindow {
            handle: 80,
            dpi: 96,
            children: vec![ScreenRect { left: 0, top: 0, right: 2560, bottom: 48 }],
        },
    ];
    assert_eq!(taskbar_by_size(&windows, 2_560_000, 48_000, &Vec::new()), Some(80));
    assert_eq!(taskbar_by_size(&windows, 1_920_000, 48_000, &Vec::new()), Some(70));
    assert_eq!(taskbar_by_size(&windows, 1_280_000, 48_000, &Vec::new()), None);
    // Two of the same size are told apart only when one of them is free.
    let twins = vec![
        TaskbarWindow {
            handle: 70,
            dpi: 0,
            children: vec![ScreenRect { left: 0, top: 0, right: 1920, bottom: 48 }],
        },
        TaskbarWindow {
            handle: 80,
            dpi: 96,
            children: vec![ScreenRect { left: 1920, top: 0, right: 3840, bottom: 48 }],
        },
    ];
    assert_eq!(taskbar_by_size(&twins, 1_920_000, 48_000, &Vec::new()), None);
    assert_eq!(taskbar_by_size(&twins, 1_920_000, 48_000, &vec![70]), Some(80));
}

fn element(token: usize, class: ElementClass, width: i64, height: i64) -> Element {
    Element { token, handle: Some(token as u64), class, width, height, top: 0 }
}

#[test]
fn the_largest_rectangle_is_the_background() {
    let mut walk = FrameWalk::new(1, Some(1_920_000));
    assert_eq!(walk.next(), Some(1));
    walk.see(element(2, ElementClass::Rectangle, 100_000, 20_000));
    walk.see(element(3, ElementClass::Rectangle, 1_920_000, 48_000));
    walk.see(element(4, ElementClass::Rectangle, 50_000, 48_000));
    let thin = walk.see(element(5, ElementClass::Rectangle, 1_920_000, 1_000));
    assert_eq!(thin.carrier, Some(5), "a thin full-width strip is a hairline");
    assert_eq!(walk.register_frame_children().0, Some(3));
    assert!(register_background_border(1_800_000, Some(1_920_000)));
    assert!(!register_background_border(1_000_000, Some(1_920_000)));
    assert!(!register_background_border(1_000_000, None));
    assert_eq!(register_rectangle(true, true, true), RectangleUse::Background);
    assert_eq!(register_rectangle(true, true, false), RectangleUse::Border);
    assert_eq!(register_rectangle(true, false, true), RectangleUse::Nothing);
    let mut again = Rewalk::new();
    assert!(!again.rewalk());
    again.begin_frame(9);
    assert_eq!(again.next(), Some(9));
    assert_eq!(again.next(), None);
    assert!(again.rewalk());
    assert_eq!((again.visited, again.too_large()), (1, false));
}

#[test]
fn a_walk_counts_the_element_it_stops_at() {
    let mut walk = FrameWalk::new(0, None);
    for token in 1..WALK_LIMIT + 1 {
        walk.see(element(token, ElementClass::Other, 0, 0));
    }
    for _ in 0..WALK_LIMIT {
        assert!(walk.next().is_some());
    }
    assert!(!walk.too_large());
    assert_eq!(walk.next(), None);
    assert!(walk.too_large());
    assert_eq!(walk.visited, WALK_LIMIT + 1);
    assert!(walk.queue.is_empty());

    let mut again = Rewalk::new();
    again.begin_frame(0);
    for token in 0..REWALK_LIMIT + 1 {
        again.enqueue(token);
    }
    for _ in 0..REWALK_LIMIT {
        assert!(again.next().is_some());
    }
    assert!(!again.too_large());
    assert_eq!(again.next(), None);
    assert!(again.too_large());
    assert_eq!((again.visited, again.queue.len()), (REWALK_LIMIT + 1, 1));
    // The frames that follow are counted, and not walked.
    again.begin_frame(7);
    assert_eq!(again.next(), None);
    assert_eq!(again.visited, REWALK_LIMIT + 2);
}

#[test]
fn the_hairline_border_is_one_that_was_seen() {
    let border = |token: usize, height: i64| Element {
        top: 1_000,
        ..element(token, ElementClass::Border, 1_920_000, height)
    };
    let mut walk = FrameWalk::new(1, Some(1_920_000));
    walk.see(border(2, 48_000));
    assert_eq!(walk.border.unwrap().handle, 2);
    walk.see(border(3, 3_000));
    walk.see(border(4, 2_000));
    walk.see(border(5, 2_000));
    let best = walk.border.unwrap();
    assert_eq!((best.handle, best.height, best.tall), (4, 2_000, false));
    assert_eq!(walk.register_frame_children().1, Some(4));
}

#[test]
fn lost_lines_are_reported_before_the_next_one() {
    assert!(start(true, true) && !start(true, false) && !start(false, true));
    let mut dropped = 0;
    let step = logger_step(Taken::Dropped, &mut dropped);
    assert!(step.report.is_none() && step.line.is_none() && !step.sleep);
    assert_eq!(dropped, 1);
    let step = logger_step(Taken::Line(b"next".to_vec()), &mut dropped);
    assert!(step.report.is_some());
    assert_eq!(step.line, Some(b"next".to_vec()));
    assert_eq!(dropped, 0);
    assert!(logger_step(Taken::Empty, &mut dropped).sleep);
    assert!(report_drops(&mut dropped).is_none());
    let mut ring = Ring::new();
    debug_log(&mut ring, false, "quiet");
    assert!(matches!(ring.take(), Taken::Empty));
    debug_log(&mut ring, true, "loud");
    assert_eq!((ring.write_ticket, ring.read_ticket), (1, 0));
    assert!(matches!(ring.take(), Taken::Line(_)));
    let line = wide_line(&vec![0x41; 400]);
    assert!(line.len() <= WIDE_MAX);
}
