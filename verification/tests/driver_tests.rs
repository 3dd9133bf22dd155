use inky::{
    BusPolicy, BusStep, Color, DisplayVariant, HwStep, Inky, InkyDisplay, InkyE673, InkyError,
    InkyWhat, PanelDescriptor, SpiPacket, WaitMethod,
};
use inky::display::bus_transaction_steps;

fn e673_descriptor() -> PanelDescriptor {
    PanelDescriptor::new(DisplayVariant::E673, 800, 480)
}

fn what_descriptor() -> PanelDescriptor {
    PanelDescriptor::new(DisplayVariant::What, 400, 300)
}

#[test]
fn test_blank() {
    let mut inky = Inky::from_descriptor(what_descriptor()).unwrap();
    let plan = inky.update().unwrap();
    assert!(!plan.is_empty());
    // the blank canvas is all white, so every packed bit is set
    match &plan[15] {
        HwStep::Send(p) => {
            assert_eq!(p.command, 0x24);
            let data = p.data.as_ref().unwrap();
            assert_eq!(data.len(), 400 * 300 / 8);
            assert!(data.iter().all(|b| *b == 0xFF));
        }
        other => panic!("unexpected step {:?}", other),
    }
    let _ = inky.canvas_mut();
}

#[test]
fn test_draw_box() {
    let mut inky = Inky::from_descriptor(e673_descriptor()).unwrap();
    inky.canvas_mut().draw(
        inky::Rectangle::new((20, 20), (780, 460)),
        &Color::Black,
    );
    let plan = inky.update().unwrap();
    assert!(!plan.is_empty());
    // a cell inside the box is black, one outside stays white
    assert_eq!(inky.canvas().get_pixel(25, 30), Color::Black);
    assert_eq!(inky.canvas().get_pixel(0, 0), Color::White);
}

#[test]
fn paired_packer_small_grid() {
    let d = InkyE673::new(e673_descriptor()).unwrap();
    let grid = vec![vec![Color::Black, Color::White, Color::Yellow, Color::Red]];
    let packed = d.convert(&grid).unwrap();
    // high nibble first pixel, low nibble second: (0,1) and (2,3)
    assert_eq!(packed, vec![0x01, 0x23]);
}

#[test]
fn paired_packer_all_colors() {
    let d = InkyE673::new(e673_descriptor()).unwrap();
    let grid = vec![
        vec![Color::Blue, Color::Green],
        vec![Color::Red, Color::Black],
    ];
    let packed = d.convert(&grid).unwrap();
    assert_eq!(packed, vec![0x56, 0x30]);
}

#[test]
fn paired_packer_byte_count() {
    let d = InkyE673::new(e673_descriptor()).unwrap();
    let grid = vec![vec![Color::White; 6]; 5];
    let packed = d.convert(&grid).unwrap();
    assert_eq!(packed.len(), 3 * 5);
}

#[test]
fn paired_packer_rejects_odd_row() {
    let d = InkyE673::new(e673_descriptor()).unwrap();
    let grid = vec![
        vec![Color::White, Color::White],
        vec![Color::White, Color::White, Color::White],
    ];
    let err = d.convert(&grid).unwrap_err();
    assert_eq!(err, InkyError::OddRowLength);
    assert_eq!(err.message(), "Row length must be even!");
}

#[test]
fn paired_packer_empty_grid() {
    let d = InkyE673::new(e673_descriptor()).unwrap();
    let grid: Vec<Vec<Color>> = Vec::new();
    assert_eq!(d.convert(&grid).unwrap(), Vec::<u8>::new());
}

#[test]
fn mono_packer_bits_lsb_first() {
    let d = InkyWhat::new(what_descriptor()).unwrap();
    // black maps to 0, everything else to 1; bit i is pixel i
    let grid = vec![vec![
        Color::Black,
        Color::White,
        Color::Black,
        Color::Red,
        Color::Black,
        Color::Black,
        Color::Black,
        Color::Black,
    ]];
    let packed = d.convert(&grid).unwrap();
    assert_eq!(packed, vec![0b0000_1010]);
}

#[test]
fn mono_packer_pads_final_byte_with_zeros() {
    let d = InkyWhat::new(what_descriptor()).unwrap();
    // 9 pixels: one full byte and one padded byte holding only pixel 8
    let mut row = vec![Color::White; 9];
    row[8] = Color::White;
    let grid = vec![row];
    let packed = d.convert(&grid).unwrap();
    assert_eq!(packed, vec![0xFF, 0x01]);
}

#[test]
fn mono_packer_row_major_across_rows() {
    let d = InkyWhat::new(what_descriptor()).unwrap();
    let grid = vec![
        vec![Color::Black, Color::Black, Color::Black, Color::White],
        vec![Color::White, Color::Black, Color::Black, Color::Black],
    ];
    let packed = d.convert(&grid).unwrap();
    // pixels 3 and 4 are the only non-black ones
    assert_eq!(packed, vec![0b0001_1000]);
}

#[test]
fn mono_packer_accepts_odd_rows() {
    let d = InkyWhat::new(what_descriptor()).unwrap();
    let grid = vec![vec![Color::Black; 3]];
    assert_eq!(d.convert(&grid).unwrap(), vec![0x00]);
}

#[test]
fn construction_fails_fast_on_other_family() {
    let phat = PanelDescriptor::new(DisplayVariant::Phat, 212, 104);
    assert_eq!(
        Inky::from_descriptor(phat).unwrap_err(),
        InkyError::UnsupportedVariant
    );
    assert_eq!(
        InkyE673::new(what_descriptor()).unwrap_err(),
        InkyError::UnsupportedVariant
    );
    assert_eq!(
        InkyWhat::new(e673_descriptor()).unwrap_err(),
        InkyError::UnsupportedVariant
    );
    assert_eq!(
        InkyError::UnsupportedVariant.message(),
        "Unsupported display variant"
    );
    let imp = PanelDescriptor::new(DisplayVariant::Impression, 600, 448);
    assert!(Inky::from_descriptor(imp).is_err());
}

#[test]
fn e673_update_plan_shape() {
    let d = InkyE673::new(e673_descriptor()).unwrap();
    let plan = d.update_steps(vec![0xAB, 0xCD]);
    assert_eq!(plan.len(), 26);
    assert_eq!(plan[0], HwStep::ResetLow);
    assert_eq!(plan[1], HwStep::SleepMs(30));
    assert_eq!(plan[2], HwStep::ResetHigh);
    assert_eq!(plan[4], HwStep::WaitBusy(Some(300)));
    // the pixel payload goes to the data-transmission register
    assert_eq!(
        plan[18],
        HwStep::Send(SpiPacket::with_data(0x10, vec![0xAB, 0xCD]))
    );
    // the refresh wait is far longer than any other
    assert_eq!(plan[23], HwStep::WaitBusy(Some(32000)));
    assert_eq!(plan[25], HwStep::WaitBusy(Some(300)));
}

#[test]
fn what_update_plan_shape() {
    let d = InkyWhat::new(what_descriptor()).unwrap();
    let plan = d.update_steps(vec![0x55]);
    assert_eq!(plan.len(), 21);
    // gate setting carries the height little-endian: 300 = 0x012C
    assert_eq!(
        plan[2],
        HwStep::Send(SpiPacket::with_data(0x01, vec![0x2C, 0x01, 0x00]))
    );
    // the horizontal window ends at width / 8 - 1
    assert_eq!(
        plan[11],
        HwStep::Send(SpiPacket::with_data(0x44, vec![0x00, 49]))
    );
    assert_eq!(
        plan[15],
        HwStep::Send(SpiPacket::with_data(0x24, vec![0x55]))
    );
    assert_eq!(plan[18], HwStep::SleepMs(50));
    // the refresh wait is bounded, and far longer than any other
    assert_eq!(plan[19], HwStep::WaitBusy(Some(32000)));
    // the last act is deep sleep
    assert_eq!(
        plan[20],
        HwStep::Send(SpiPacket::with_data(0x10, vec![0x01]))
    );
}

#[test]
fn what_reset_plan_shape() {
    let d = InkyWhat::new(what_descriptor()).unwrap();
    let plan = d.reset_steps();
    assert_eq!(
        plan,
        vec![
            HwStep::ResetLow,
            HwStep::SleepMs(100),
            HwStep::ResetHigh,
            HwStep::SleepMs(100),
            HwStep::Send(SpiPacket::no_data(0x12)),
            HwStep::WaitBusy(Some(1000)),
        ]
    );
}

#[test]
fn e673_reset_ends_in_configuration() {
    let d = InkyE673::new(e673_descriptor()).unwrap();
    let plan = d.reset_steps();
    assert_eq!(plan.len(), 18);
    // the resolution register names 800 x 480
    assert_eq!(
        plan[15],
        HwStep::Send(SpiPacket::with_data(0x61, vec![0x03, 0x20, 0x01, 0xE0]))
    );
}

#[test]
fn wait_level_sense_fallback_sleeps_and_arms_nothing() {
    let d = InkyE673::new(e673_descriptor()).unwrap();
    // busy already at the not-ready level: sleep out the timeout
    assert_eq!(
        d.wait_method(true, Some(500)),
        WaitMethod::SleepFor(500)
    );
    // with no caller timeout the family default applies
    assert_eq!(d.wait_method(true, None), WaitMethod::SleepFor(100));
    // otherwise an edge watch, rising for this family
    assert_eq!(
        d.wait_method(false, Some(300)),
        WaitMethod::EdgeWait { rising: true, timeout_ms: Some(300) }
    );
}

#[test]
fn wait_what_always_watches_falling_edge() {
    let d = InkyWhat::new(what_descriptor()).unwrap();
    // an absent timeout is replaced by the family default: never unbounded
    assert_eq!(
        d.wait_method(false, None),
        WaitMethod::EdgeWait { rising: false, timeout_ms: Some(1000) }
    );
    assert_eq!(
        d.wait_method(true, Some(10)),
        WaitMethod::EdgeWait { rising: false, timeout_ms: Some(10) }
    );
}

#[test]
fn transaction_chunks_long_payload() {
    let payload: Vec<u8> = (0..5000u32).map(|i| (i % 251) as u8).collect();
    let packet = SpiPacket::with_data(0x10, payload.clone());
    let policy = BusPolicy { uses_chip_select: true, setup_delay_ms: 300 };
    let steps = bus_transaction_steps(&packet, policy);
    assert_eq!(steps[0], BusStep::SelectActive);
    assert_eq!(steps[1], BusStep::CommandMode);
    assert_eq!(steps[2], BusStep::PauseMs(300));
    assert_eq!(steps[3], BusStep::Write(vec![0x10]));
    assert_eq!(steps[4], BusStep::DataMode);
    // chunked to the transfer limit, concatenation recovering the payload
    let mut rejoined = Vec::new();
    match (&steps[5], &steps[6]) {
        (BusStep::Write(a), BusStep::Write(b)) => {
            assert_eq!(a.len(), 4096);
            assert_eq!(b.len(), 904);
            rejoined.extend_from_slice(a);
            rejoined.extend_from_slice(b);
        }
        other => panic!("unexpected steps {:?}", other),
    }
    assert_eq!(rejoined, payload);
    assert_eq!(steps[7], BusStep::SelectIdle);
    assert_eq!(steps[8], BusStep::CommandMode);
    assert_eq!(steps.len(), 9);
}

#[test]
fn transaction_without_select_or_payload() {
    let packet = SpiPacket::no_data(0x12);
    let policy = BusPolicy { uses_chip_select: false, setup_delay_ms: 0 };
    let steps = bus_transaction_steps(&packet, policy);
    assert_eq!(
        steps,
        vec![
            BusStep::CommandMode,
            BusStep::Write(vec![0x12]),
            BusStep::CommandMode,
        ]
    );
}

#[test]
fn transaction_always_restores_command_mode() {
    // even without chip-select framing, a payload transaction ends with
    // the data/command line back at its command-mode default
    let packet = SpiPacket::with_data(0x24, vec![0xAA, 0xBB]);
    let policy = BusPolicy { uses_chip_select: false, setup_delay_ms: 0 };
    let steps = bus_transaction_steps(&packet, policy);
    assert_eq!(
        steps,
        vec![
            BusStep::CommandMode,
            BusStep::Write(vec![0x24]),
            BusStep::DataMode,
            BusStep::Write(vec![0xAA, 0xBB]),
            BusStep::CommandMode,
        ]
    );
}

#[test]
fn descriptor_checked_construction() {
    let good = PanelDescriptor::try_new(DisplayVariant::What, 400, 300).unwrap();
    assert_eq!(good, what_descriptor());
    // a width the one-byte window register cannot hold, or too narrow to
    // pack, or a zero height, is refused at run time
    assert!(PanelDescriptor::try_new(DisplayVariant::What, 4, 300).is_none());
    assert!(PanelDescriptor::try_new(DisplayVariant::What, 2056, 300).is_none());
    assert!(PanelDescriptor::try_new(DisplayVariant::What, 400, 0).is_none());
}
