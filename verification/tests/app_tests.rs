use falcon_asm::falcon::errors::FalconError;
use falcon_asm::falcon::Bus;
use falcon_asm::ui::app::{App, EditorMode, MemRegion, Tab, MEM_SIZE};

#[test]
fn new_app_starts_in_the_editor_with_a_reset_machine() {
    let app = App::new();
    assert!(app.tab == Tab::Editor);
    assert!(app.mode == EditorMode::Insert);
    assert!(app.editor_dirty);
    assert_eq!(app.cpu.pc, 0);
    assert_eq!(app.cpu.read(2), MEM_SIZE as u32 - 4);
    assert_eq!(app.mem.size(), MEM_SIZE);
    assert_eq!(app.data_base, 0x1000);
    assert_eq!(app.mem_view_addr, 0x1000);
    assert!(app.mem_region == MemRegion::Data);
    assert!(app.last_compile_ok.is_none());
}

#[test]
fn assembling_the_sample_loads_it() {
    let mut app = App::new();
    app.assemble_and_load();
    assert_eq!(app.last_compile_ok, Some(true));
    assert_eq!(
        app.last_assemble_msg.as_deref(),
        Some("Assembled 9 instructions, 15 data bytes.")
    );
    assert_eq!(app.mem.load8(0x1000), Ok(b'H'));
    assert!(app.diag_line.is_none());
}

#[test]
fn stepping_the_sample_prints_and_halts() {
    let mut app = App::new();
    app.assemble_and_load();
    app.is_running = true;
    for _ in 0..20 {
        if !app.is_running {
            break;
        }
        app.single_step();
    }
    assert!(!app.is_running);
    assert!(app.faulted);
    assert_eq!(app.console.lines[0], "Hello, Falcon!");
    assert_eq!(app.console.lines[1], "5");
    assert_eq!(app.cpu.stdout, b"Hello, Falcon!5");
}

#[test]
fn assembly_errors_show_the_line() {
    let mut app = App::new();
    app.editor.lines = vec![".text".to_string(), "nop".to_string(), "bogus x1".to_string()];
    app.assemble_and_load();
    assert_eq!(app.last_compile_ok, Some(false));
    assert_eq!(app.diag_line, Some(2));
    assert_eq!(app.diag_msg.as_deref(), Some("unsupported mnemonic: bogus"));
    assert_eq!(app.diag_line_text.as_deref(), Some("bogus x1"));
    assert_eq!(
        app.last_assemble_msg.as_deref(),
        Some("Assemble error at line 3: unsupported mnemonic: bogus")
    );
}

#[test]
fn program_too_large_for_memory_loads_what_fits() {
    let mut app = App::new();
    app.editor.lines = vec![
        ".data".to_string(),
        ".space 126974".to_string(),
        ".byte 7, 8, 9".to_string(),
    ];
    app.assemble_and_load();
    assert_eq!(app.last_compile_ok, Some(true));
    assert!(!app.faulted);
    assert_eq!(app.data_base, 0x1000);
    assert_eq!(app.mem.load8(0x1FFFE), Ok(7));
    assert_eq!(app.mem.load8(0x1FFFF), Ok(8));
    assert_eq!(app.mem.load8(0x20000), Err(FalconError::OutOfBounds { addr: 0x20000, size: 1 }));
    assert_eq!(
        app.last_assemble_msg.as_deref(),
        Some("Assembled 0 instructions, 126977 data bytes.")
    );
}

#[test]
fn tick_steps_only_after_the_interval() {
    let mut app = App::new();
    app.assemble_and_load();
    app.tab = Tab::Run;
    app.is_running = true;
    app.tick(50);
    assert_eq!(app.cpu.pc, 0);
    app.tick(80);
    assert_eq!(app.cpu.pc, 4);
    assert_eq!(app.last_step_time, 80);
    assert_eq!(app.prev_pc, 0);
    app.tick(120);
    assert_eq!(app.cpu.pc, 4);
}

#[test]
fn tick_checks_the_source_after_the_delay() {
    let mut app = App::new();
    app.tick(100);
    assert!(app.editor_dirty);
    assert!(app.last_compile_ok.is_none());
    app.tick(400);
    assert!(!app.editor_dirty);
    assert_eq!(app.last_compile_ok, Some(true));
    assert_eq!(app.last_assemble_msg.as_deref(), Some("OK: 9 instructions, 15 data bytes"));
    assert_eq!(app.cpu.pc, 0);
}

#[test]
fn sample_text_joins_lines_with_newlines() {
    let app = App::new();
    let text = app.editor.text();
    assert!(text.starts_with(".data\nmsg: .asciz \"Hello, Falcon!\"\n.text\n"));
    assert!(text.ends_with("    ebreak"));
}
