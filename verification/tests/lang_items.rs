use os::lang_items::{Location, PanicInfo};
use os::machine::{Effect, ExitStatus, Machine};
use os::sbi::SbiCall;

const EXIT_FAILURE: SbiCall = SbiCall { which: 0x5352_5354, arg0: 0, arg1: 1, arg2: 0 };

fn calls(machine: &Machine) -> Vec<SbiCall> {
    machine
        .effects()
        .iter()
        .filter_map(|effect| match effect {
            Effect::Call(call) => Some(*call),
            Effect::Store(_) => None,
        })
        .collect()
}

fn console_text(machine: &Machine) -> String {
    calls(machine)
        .iter()
        .filter(|call| call.which == 1)
        .map(|call| char::from_u32(call.arg0 as u32).unwrap())
        .collect()
}

fn exits(machine: &Machine) -> usize {
    calls(machine).iter().filter(|call| call.which == 0x5352_5354).count()
}

#[test]
fn panic_with_a_location_names_file_and_line() {
    let mut machine = Machine::new();
    let info = PanicInfo {
        location: Some(Location { file: "src/main.rs", line: 42 }),
        message: "index out of bounds",
    };
    os::lang_items::panic(&mut machine, &info);
    assert_eq!(console_text(&machine), "[kernel] Panicked at src/main.rs:42 index out of bounds\n");
    assert_eq!(calls(&machine).last(), Some(&EXIT_FAILURE));
    assert_eq!(machine.effects().last(), Some(&Effect::Call(EXIT_FAILURE)));
    assert_eq!(exits(&machine), 1);
    assert_eq!(machine.exit_status(), Some(ExitStatus::Failure));
}

#[test]
fn panic_without_a_location_gives_the_message_alone() {
    let mut machine = Machine::new();
    let info = PanicInfo { location: None, message: "out of memory" };
    os::lang_items::panic(&mut machine, &info);
    assert_eq!(console_text(&machine), "[kernel] Panicked: out of memory\n");
    assert_eq!(calls(&machine).len(), "[kernel] Panicked: out of memory\n".len() + 1);
    assert_eq!(calls(&machine).last(), Some(&EXIT_FAILURE));
    assert_eq!(machine.effects().last(), Some(&Effect::Call(EXIT_FAILURE)));
    assert_eq!(exits(&machine), 1);
    assert_eq!(machine.exit_status(), Some(ExitStatus::Failure));
}

#[test]
fn panic_line_is_what_the_format_string_gives() {
    let panics = [("a.rs", 0u32, ""), ("src/lib.rs", 7, "x"), ("ü.rs", u32::MAX, "多 bytes")];
    for (file, line, message) in panics {
        let mut machine = Machine::new();
        os::lang_items::panic(
            &mut machine,
            &PanicInfo { location: Some(Location { file, line }), message },
        );
        assert_eq!(
            console_text(&machine),
            format!("[kernel] Panicked at {}:{} {}\n", file, line, message)
        );
    }
}

#[test]
fn panic_after_output_keeps_what_was_written() {
    let mut machine = Machine::new();
    os::console::write_str(&mut machine, "before\n");
    os::lang_items::panic(&mut machine, &PanicInfo { location: None, message: "m" });
    assert_eq!(console_text(&machine), "before\n[kernel] Panicked: m\n");
    assert_eq!(exits(&machine), 1);
}

#[test]
fn a_second_panic_does_nothing() {
    let mut machine = Machine::new();
    let info = PanicInfo { location: None, message: "first" };
    os::lang_items::panic(&mut machine, &info);
    let before = calls(&machine);
    os::lang_items::panic(&mut machine, &PanicInfo { location: None, message: "second" });
    assert_eq!(calls(&machine), before);
    assert_eq!(exits(&machine), 1);
    assert_eq!(machine.exit_status(), Some(ExitStatus::Failure));
}

#[test]
fn panic_after_a_successful_exit_does_not_change_the_status() {
    let mut machine = Machine::new();
    os::board::QEMU_EXIT_HANDLE.exit_success(&mut machine);
    os::lang_items::panic(&mut machine, &PanicInfo { location: None, message: "late" });
    assert_eq!(calls(&machine).len(), 1);
    assert_eq!(machine.exit_status(), Some(ExitStatus::Success));
}
