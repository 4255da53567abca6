use stride_kernel::logging::{color_code, init, Level, LevelFilter};
use stride_kernel::trap_context::{TrapContext, SSTATUS_SPP};

#[test]
fn app_init_context_builds_the_first_trap_frame() {
    let cx = TrapContext::app_init_context(0x80400000, 0x8000, 0x1234, 0x9000, 0x80200000, 0x120);
    assert_eq!(cx.sepc, 0x80400000);
    assert_eq!(cx.x[2], 0x8000);
    assert_eq!(cx.kernel_satp, 0x1234);
    assert_eq!(cx.kernel_sp, 0x9000);
    assert_eq!(cx.trap_handler, 0x80200000);
    // The previous-privilege bit is forced clear: return lands in user mode.
    assert_eq!(cx.sstatus, 0x20);
    assert_eq!(cx.sstatus & SSTATUS_SPP, 0);
    for (i, &r) in cx.x.iter().enumerate() {
        if i != 2 {
            assert_eq!(r, 0);
        }
    }
}

#[test]
fn set_sp_writes_only_the_stack_pointer_register() {
    let mut cx = TrapContext::zeroed();
    cx.set_sp(0xdead0);
    assert_eq!(cx.x[2], 0xdead0);
    assert_eq!(cx.x[1], 0);
    assert_eq!(cx.x[3], 0);
    assert_eq!(cx.sepc, 0);
}

#[test]
fn duplicate_copies_every_register() {
    let mut cx = TrapContext::app_init_context(1, 2, 3, 4, 5, SSTATUS_SPP);
    cx.x[10] = 99;
    let copy = cx.duplicate();
    assert_eq!(copy.x, cx.x);
    assert_eq!(copy.sstatus, cx.sstatus);
    assert_eq!(copy.sepc, cx.sepc);
    assert_eq!(copy.kernel_satp, cx.kernel_satp);
    assert_eq!(copy.kernel_sp, cx.kernel_sp);
    assert_eq!(copy.trap_handler, cx.trap_handler);
}

#[test]
fn init_selects_the_level_named_by_the_setting() {
    assert_eq!(init(Some(&b"ERROR".to_vec())), LevelFilter::Error);
    assert_eq!(init(Some(&b"WARN".to_vec())), LevelFilter::Warn);
    assert_eq!(init(Some(&b"INFO".to_vec())), LevelFilter::Info);
    assert_eq!(init(Some(&b"DEBUG".to_vec())), LevelFilter::Debug);
    assert_eq!(init(Some(&b"TRACE".to_vec())), LevelFilter::Trace);
}

#[test]
fn init_switches_logging_off_otherwise() {
    assert_eq!(init(None), LevelFilter::Off);
    assert_eq!(init(Some(&b"".to_vec())), LevelFilter::Off);
    assert_eq!(init(Some(&b"error".to_vec())), LevelFilter::Off);
    assert_eq!(init(Some(&b"VERBOSE".to_vec())), LevelFilter::Off);
    assert_eq!(init(Some(&b"ERRORS".to_vec())), LevelFilter::Off);
}

#[test]
fn each_level_has_its_colour() {
    assert_eq!(color_code(Level::Error), 31);
    assert_eq!(color_code(Level::Warn), 93);
    assert_eq!(color_code(Level::Info), 34);
    assert_eq!(color_code(Level::Debug), 32);
    assert_eq!(color_code(Level::Trace), 92);
}
