use modbus_tui::config::RegisterType;
use modbus_tui::store::{ModbusRequest, ModbusResponse, ModbusService, RegisterStore, ServerEvent, ServerException};

fn service() -> ModbusService {
    ModbusService { peer: "127.0.0.1:4000".to_string() }
}

fn log_line(events: &[ServerEvent]) -> String {
    match &events[1] {
        ServerEvent::Log(m) => m.clone(),
        _ => panic!("log line expected"),
    }
}

#[test]
fn initial_values_fill_the_tables() {
    let values = vec![
        ("hr:0".to_string(), 1234u16),
        ("ir:100".to_string(), 7),
        ("co:5".to_string(), 1),
        ("di:0".to_string(), 0),
        ("xx:1".to_string(), 9),
        ("hr".to_string(), 9),
        ("hr:abc".to_string(), 9),
        ("hr:0".to_string(), 4321),
    ];
    let store = RegisterStore::from_initial_values(&values);
    assert_eq!(store.holding_registers.get(&0), Some(&4321));
    assert_eq!(store.holding_registers.len(), 1);
    assert_eq!(store.input_registers.get(&100), Some(&7));
    assert_eq!(store.coils.get(&5), Some(&true));
    assert_eq!(store.discrete_inputs.get(&0), Some(&false));
}

#[test]
fn reads_fill_unset_registers_with_zero() {
    let store = RegisterStore::from_initial_values(&vec![("hr:2".to_string(), 5), ("co:1".to_string(), 1)]);
    assert_eq!(store.read_holding_registers(0, 4), vec![0, 0, 5, 0]);
    assert_eq!(store.read_input_registers(0, 2), vec![0, 0]);
    assert_eq!(store.read_coils(0, 3), vec![false, true, false]);
    assert_eq!(store.read_discrete_inputs(65534, 2), vec![false, false]);
}

#[test]
fn read_after_write_gives_the_written_values() {
    let mut store = RegisterStore::new();
    let (r, events) = service().handle_request(&mut store, ModbusRequest::WriteMultipleRegisters(10, vec![1, 2, 3]));
    assert!(matches!(r, Ok(ModbusResponse::WriteMultipleRegisters(10, 3))));
    assert!(matches!(events[0], ServerEvent::RequestWrite));
    assert_eq!(log_line(&events), "[127.0.0.1:4000] WriteMultipleRegisters addr=0x000A count=3");
    let (r, events) = service().handle_request(&mut store, ModbusRequest::ReadHoldingRegisters(9, 5));
    match r {
        Ok(ModbusResponse::ReadHoldingRegisters(v)) => assert_eq!(v, vec![0, 1, 2, 3, 0]),
        _ => panic!("read response expected"),
    }
    assert!(matches!(events[0], ServerEvent::RequestHoldingRegisters));
    assert_eq!(log_line(&events), "[127.0.0.1:4000] ReadHoldingRegisters addr=0x0009 count=5");
}

#[test]
fn single_writes_and_coils() {
    let mut store = RegisterStore::new();
    let (r, events) = service().handle_request(&mut store, ModbusRequest::WriteSingleCoil(0x20, true));
    assert!(matches!(r, Ok(ModbusResponse::WriteSingleCoil(0x20, true))));
    assert_eq!(log_line(&events), "[127.0.0.1:4000] WriteSingleCoil addr=0x0020 value=true");
    let (r, events) = service().handle_request(&mut store, ModbusRequest::WriteSingleRegister(1, 65535));
    assert!(matches!(r, Ok(ModbusResponse::WriteSingleRegister(1, 65535))));
    assert_eq!(log_line(&events), "[127.0.0.1:4000] WriteSingleRegister addr=0x0001 value=65535");
    let (r, _) = service().handle_request(&mut store, ModbusRequest::WriteMultipleCoils(0x1F, vec![true, false, true]));
    assert!(matches!(r, Ok(ModbusResponse::WriteMultipleCoils(0x1F, 3))));
    let (r, events) = service().handle_request(&mut store, ModbusRequest::ReadCoils(0x1F, 4));
    match r {
        Ok(ModbusResponse::ReadCoils(v)) => assert_eq!(v, vec![true, false, true, false]),
        _ => panic!("read response expected"),
    }
    assert!(matches!(events[0], ServerEvent::RequestCoils));
    assert_eq!(store.holding_registers.get(&1), Some(&65535));
    let (r, events) = service().handle_request(&mut store, ModbusRequest::ReadDiscreteInputs(0, 1));
    assert!(matches!(r, Ok(ModbusResponse::ReadDiscreteInputs(_))));
    assert!(matches!(events[0], ServerEvent::RequestDiscreteInputs));
    let (r, events) = service().handle_request(&mut store, ModbusRequest::ReadInputRegisters(0, 1));
    assert!(matches!(r, Ok(ModbusResponse::ReadInputRegisters(_))));
    assert!(matches!(events[0], ServerEvent::RequestInputRegisters));
}

#[test]
fn unsupported_functions_are_refused() {
    let mut store = RegisterStore::new();
    let (r, events) = service().handle_request(&mut store, ModbusRequest::Other("MaskWriteRegister".to_string()));
    assert!(matches!(r, Err(ServerException::IllegalFunction)));
    assert!(matches!(events[0], ServerEvent::RequestOther));
    assert_eq!(log_line(&events), "[127.0.0.1:4000] unsupported function code MaskWriteRegister");
    assert!(store.holding_registers.is_empty());
}

#[test]
fn writes_elsewhere_leave_reads_unchanged() {
    let mut store = RegisterStore::from_initial_values(&vec![("hr:0".to_string(), 11), ("hr:1".to_string(), 12)]);
    let before = store.read_holding_registers(0, 2);
    let _ = service().handle_request(&mut store, ModbusRequest::WriteMultipleRegisters(2, vec![7, 8]));
    let _ = service().handle_request(&mut store, ModbusRequest::WriteSingleCoil(0, true));
    assert_eq!(store.read_holding_registers(0, 2), before);
    assert_eq!(store.read_holding_registers(0, 4), vec![11, 12, 7, 8]);
}

#[test]
fn local_writes_reach_the_served_tables() {
    let mut s = RegisterStore::new();
    s.apply_write(RegisterType::Coils, 4, &vec![0, 7]);
    s.apply_write(RegisterType::InputRegisters, 10, &vec![11, 12]);
    assert_eq!(s.read_coils(4, 2), vec![false, true]);
    assert_eq!(s.read_input_registers(10, 3), vec![11, 12, 0]);
    assert_eq!(s.read_holding_registers(10, 1), vec![0]);
    assert_eq!(s.read_discrete_inputs(4, 2), vec![false, false]);
}
