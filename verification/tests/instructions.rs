use plotstream::config::InstructionSet;
use plotstream::config::MachineConfig;

#[test]
fn instruction_set_keeps_its_bytes() {
    let bytes: Vec<u8> = vec![10, 20, 30, 40, 50];
    let ins = InstructionSet::new(bytes.clone());
    assert_eq!(ins.len(), 5);
    assert_eq!(ins.get_binary(), &bytes);
}

#[test]
fn instruction_set_window_copies_the_right_slice() {
    let ins = InstructionSet::new(vec![10, 20, 30, 40, 50]);
    assert_eq!(ins.window(1, 3), vec![20, 30, 40]);
    assert_eq!(ins.window(0, 5), vec![10, 20, 30, 40, 50]);
    assert_eq!(ins.window(4, 1), vec![50]);
    assert_eq!(ins.window(2, 0), Vec::<u8>::new());
}

#[test]
fn empty_instruction_set() {
    let ins = InstructionSet::new(Vec::new());
    assert_eq!(ins.len(), 0);
    assert_eq!(ins.get_binary(), &Vec::<u8>::new());
}

#[test]
fn machine_config_is_plain_data() {
    let config = MachineConfig {
        instruction_buffer_size: 64,
        max_motor_speed: 800,
        min_pulse_width: 25,
        protocol_version: 1,
    };
    let copy = config;
    assert_eq!(copy, config);
    assert_eq!(copy.instruction_buffer_size, 64);
}
