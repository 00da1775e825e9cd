use svers::device::{
    plic_decision, sign_extend32, uart_decision, DeviceAccess, DeviceDecision, DeviceOp,
    FatalFault, GuestRegisters,
};
use svers::fault::{handle_page_fault, Context, FaultAction, GuestCsrs, VirtioWindows};
use svers::memory::GuestMemory;
use svers::pte::ShadowRoot;
use svers::shadow::{ShadowPageTables, TlbStaleness};

const RAM_BASE: u64 = 0x8000_0000;
const VA: u64 = 0x0040_3000;

const LB_X5_X10: u32 = 0x0005_0283;
const SB_X6_X10: u32 = 0x0065_0023;
const LW_X7_X11: u32 = 0x0045_a383;
const SW_X8_X11: u32 = 0x0085_a023;
const C_LW_A2_A5: u32 = 0x43b0;
const ADD_X1_X2_X3: u32 = 0x0031_00b3;
const CUSTOM0: u32 = 0x0000_000b;

fn idx(pa: u64) -> usize {
    ((pa - RAM_BASE) / 8) as usize
}

/// A context whose page at `VA` maps guest-physical `target`, outside RAM.
fn context(target: u64) -> Context {
    let mut words = vec![0u64; 4 * 512];
    words[idx(RAM_BASE)] = ((0x8000_1000u64 >> 12) << 10) | 1;
    words[idx(0x8000_1000 + 2 * 8)] = ((0x8000_2000u64 >> 12) << 10) | 1;
    words[idx(0x8000_2000 + 3 * 8)] = ((target >> 12) << 10) | 0x7;
    Context {
        regs: GuestRegisters::new(),
        csrs: GuestCsrs { satp: (8u64 << 60) | (RAM_BASE >> 12), sip: 0x222 },
        trap_pc: 0x8020_0000,
        guest_memory: GuestMemory::new(RAM_BASE, words),
        guest_shift: 0x1_0000_0000,
        shadow_page_tables: ShadowPageTables::new(),
        shadow: ShadowRoot::KVA,
        staleness: TlbStaleness::new(),
        smode: true,
        no_interrupt: true,
        virtio: VirtioWindows { queues: Vec::new(), devices: Vec::new() },
    }
}

#[test]
fn uart_byte_load_is_emulated() {
    let mut ctx = context(0x1000_0000);
    let r = handle_page_fault(&mut ctx, 13, VA + 5, Some(LB_X5_X10));
    assert_eq!(
        r,
        FaultAction::Device(DeviceAccess { pa: 0x1000_0005, op: DeviceOp::UartLoadByte { rd: 5 }, len: 4 })
    );
    ctx.complete_uart_load(5, 0x41, 4);
    assert_eq!(ctx.regs.get(5), 0x41);
    assert_eq!(ctx.trap_pc, 0x8020_0004);
}

#[test]
fn uart_byte_store_takes_low_byte() {
    let mut ctx = context(0x1000_0000);
    ctx.regs.set(6, 0x1234);
    let r = handle_page_fault(&mut ctx, 15, VA, Some(SB_X6_X10));
    assert_eq!(
        r,
        FaultAction::Device(DeviceAccess { pa: 0x1000_0000, op: DeviceOp::UartStoreByte { byte: 0x34 }, len: 4 })
    );
    ctx.complete_uart_store(4);
    assert_eq!(ctx.trap_pc, 0x8020_0004);
}

#[test]
fn uart_other_instruction_is_fatal_and_garbage_forwarded() {
    let regs = GuestRegisters::new();
    assert_eq!(
        uart_decision(&regs, 0x1000_0001, ADD_X1_X2_X3),
        DeviceDecision::Fatal(FatalFault::UartInstruction { pa: 0x1000_0001 })
    );
    assert_eq!(uart_decision(&regs, 0x1000_0001, LW_X7_X11), DeviceDecision::Fatal(FatalFault::UartInstruction { pa: 0x1000_0001 }));
    assert_eq!(uart_decision(&regs, 0x1000_0001, CUSTOM0), DeviceDecision::Forward);
}

#[test]
fn plic_word_store_clears_seip_once() {
    let mut ctx = context(0x0c20_0000);
    ctx.regs.set(8, 0x1234_5678_0000_0007);
    let r = handle_page_fault(&mut ctx, 15, VA + 4, Some(SW_X8_X11));
    assert_eq!(
        r,
        FaultAction::Device(DeviceAccess { pa: 0x0c20_0004, op: DeviceOp::PlicStoreWord { word: 7 }, len: 4 })
    );
    ctx.complete_plic_store(true, 4);
    assert_eq!(ctx.csrs.sip, 0x022);
    assert!(!ctx.no_interrupt);
    ctx.complete_plic_store(true, 4);
    assert_eq!(ctx.csrs.sip, 0x022);
    assert_eq!(ctx.trap_pc, 0x8020_0008);
}

#[test]
fn plic_word_store_without_clear_keeps_sip() {
    let mut ctx = context(0x0c20_0000);
    ctx.complete_plic_store(false, 2);
    assert_eq!(ctx.csrs.sip, 0x222);
    assert!(!ctx.no_interrupt);
    assert_eq!(ctx.trap_pc, 0x8020_0002);
}

#[test]
fn plic_word_load_sign_extends() {
    let mut ctx = context(0x0c20_0000);
    let r = handle_page_fault(&mut ctx, 13, VA, Some(LW_X7_X11));
    assert_eq!(
        r,
        FaultAction::Device(DeviceAccess { pa: 0x0c20_0000, op: DeviceOp::PlicLoadWord { rd: 7 }, len: 4 })
    );
    ctx.complete_plic_load(7, 0x8000_0001, 4);
    assert_eq!(ctx.regs.get(7), 0xffff_ffff_8000_0001);
    ctx.complete_plic_load(0, 5, 4);
    assert_eq!(ctx.regs.get(0), 0);
    assert_eq!(sign_extend32(0x7fff_ffff), 0x7fff_ffff);
}

#[test]
fn plic_compressed_load_has_length_two() {
    let regs = GuestRegisters::new();
    assert_eq!(
        plic_decision(&regs, 0x0c00_0010, C_LW_A2_A5),
        DeviceDecision::Perform(DeviceAccess { pa: 0x0c00_0010, op: DeviceOp::PlicLoadWord { rd: 12 }, len: 2 })
    );
}

#[test]
fn plic_unsupported_instructions_are_fatal() {
    let regs = GuestRegisters::new();
    assert_eq!(
        plic_decision(&regs, 0x0c00_0000, CUSTOM0),
        DeviceDecision::Fatal(FatalFault::UndecodablePlic { pa: 0x0c00_0000, insn: CUSTOM0 })
    );
    assert_eq!(
        plic_decision(&regs, 0x0c00_0000, LB_X5_X10),
        DeviceDecision::Fatal(FatalFault::PlicInstruction { pa: 0x0c00_0000 })
    );
}

#[test]
fn device_faults_need_supervisor_data_access_with_instruction() {
    let mut ctx = context(0x1000_0000);
    assert_eq!(handle_page_fault(&mut ctx, 15, VA, None), FaultAction::Forward);
    let mut ctx = context(0x1000_0000);
    ctx.smode = false;
    assert_eq!(handle_page_fault(&mut ctx, 15, VA, Some(SB_X6_X10)), FaultAction::Forward);
    let mut words_ctx = context(0x1000_0000);
    let leaf = ((0x1000_0000u64 >> 12) << 10) | 0xf;
    words_ctx.guest_memory.words[idx(0x8000_2000 + 3 * 8)] = leaf;
    assert_eq!(handle_page_fault(&mut words_ctx, 12, VA, Some(SB_X6_X10)), FaultAction::Forward);
}

#[test]
fn unclaimed_and_virtio_device_addresses() {
    let mut ctx = context(0x2000_0000);
    assert_eq!(handle_page_fault(&mut ctx, 13, VA, Some(LB_X5_X10)), FaultAction::Forward);
    let mut ctx = context(0x2000_0000);
    ctx.virtio.devices.push((0x2000_0000, 0x2000_1000));
    assert_eq!(
        handle_page_fault(&mut ctx, 13, VA + 8, Some(LB_X5_X10)),
        FaultAction::VirtioDevice { guest_pa: 0x2000_0008, instruction: LB_X5_X10 }
    );
}
