use sereal::serial_view::{disconnect_and_connect, SerialView};
use sereal::service::{PortController, SerialService};
use sereal::types::BaudRate;
use std::cell::Cell;
use std::rc::Rc;

struct FakeController {
    port_name: String,
    baud_rate: BaudRate,
    stopped: Rc<Cell<usize>>,
    open: bool,
}

impl PortController for FakeController {
    fn activate(port_name: &str, baud_rate: BaudRate) -> Self {
        FakeController {
            port_name: port_name.to_string(),
            baud_rate,
            stopped: Rc::new(Cell::new(0)),
            open: port_name.ends_with("0"),
        }
    }

    fn is_stopped(&self) -> bool {
        self.stopped.get() > 0
    }

    fn deactivate(&mut self) {
        self.stopped.set(self.stopped.get() + 1);
    }

    fn is_physical_connected(&self) -> bool {
        self.open
    }
}

#[test]
fn connect_is_idempotent() {
    let mut service: SerialService<FakeController> = SerialService::new();
    assert!(!service.is_connected("/dev/ttyUSB0"));
    assert!(service.connect("/dev/ttyUSB0", BaudRate::BaudRate9600).is_ok());
    assert!(service.is_connected("/dev/ttyUSB0"));
    let first = service.get_controller("/dev/ttyUSB0").unwrap().stopped.clone();
    assert!(service.connect("/dev/ttyUSB0", BaudRate::BaudRate115200).is_ok());
    let controller = service.get_controller("/dev/ttyUSB0").unwrap();
    assert_eq!(controller.port_name, "/dev/ttyUSB0");
    assert_eq!(controller.baud_rate, BaudRate::BaudRate9600);
    assert!(Rc::ptr_eq(&controller.stopped, &first));
    assert_eq!(first.get(), 0);
    assert_eq!(service.get_available_ports(vec!["/dev/ttyUSB0".to_string()], None).len(), 0);
}

#[test]
fn connecting_a_missing_device_still_registers_it() {
    let mut service: SerialService<FakeController> = SerialService::new();
    assert_eq!(service.connect("/dev/missing", BaudRate::BaudRate9600), Ok(()));
    assert!(service.is_connected("/dev/missing"));
    assert!(!service.is_physically_connected("/dev/missing"));
    assert_eq!(service.get_controller("/dev/missing").unwrap().port_name, "/dev/missing");
}

#[test]
fn disconnect_twice_is_safe() {
    let mut service: SerialService<FakeController> = SerialService::new();
    service.connect("/dev/ttyUSB1", BaudRate::BaudRate115200).unwrap();
    service.connect("/dev/ttyUSB2", BaudRate::BaudRate115200).unwrap();
    let stopped = service.get_controller("/dev/ttyUSB1").unwrap().stopped.clone();
    let removed = service.disconnect("/dev/ttyUSB1").unwrap();
    assert_eq!(removed.port_name, "/dev/ttyUSB1");
    assert!(Rc::ptr_eq(&removed.stopped, &stopped));
    assert!(!service.is_connected("/dev/ttyUSB1"));
    assert!(service.is_connected("/dev/ttyUSB2"));
    assert_eq!(stopped.get(), 1);
    assert!(service.disconnect("/dev/ttyUSB1").is_none());
    assert!(!service.is_connected("/dev/ttyUSB1"));
    assert!(service.is_connected("/dev/ttyUSB2"));
    assert_eq!(stopped.get(), 1);
}

#[test]
fn physical_state_comes_from_the_worker() {
    let mut service: SerialService<FakeController> = SerialService::new();
    assert!(!service.is_physically_connected("/dev/ttyS0"));
    service.connect("/dev/ttyS0", BaudRate::BaudRate9600).unwrap();
    service.connect("/dev/ttyS1", BaudRate::BaudRate9600).unwrap();
    assert!(service.is_physically_connected("/dev/ttyS0"));
    assert!(!service.is_physically_connected("/dev/ttyS1"));
    assert!(service.is_connected("/dev/ttyS1"));
}

#[test]
fn available_ports_skip_connected_ones_but_not_our_own() {
    let mut service: SerialService<FakeController> = SerialService::new();
    service.connect("COM1", BaudRate::BaudRate9600).unwrap();
    service.connect("COM2", BaudRate::BaudRate9600).unwrap();
    let visible = vec!["COM1".to_string(), "COM2".to_string(), "COM3".to_string()];
    assert_eq!(service.get_available_ports(visible.clone(), None), vec!["COM3".to_string()]);
    assert_eq!(
        service.get_available_ports(visible.clone(), Some("COM2")),
        vec!["COM2".to_string(), "COM3".to_string()]
    );
    assert_eq!(
        service.get_available_ports(visible, Some("COM9")),
        vec!["COM3".to_string()]
    );
    assert!(service.get_available_ports(vec![], Some("COM1")).is_empty());
}

#[test]
fn switching_ports_moves_the_worker() {
    let mut service: SerialService<FakeController> = SerialService::new();
    service.connect("COM4", BaudRate::BaudRate9600).unwrap();
    let old = disconnect_and_connect(&mut service, "COM4", "COM5", BaudRate::BaudRate115200).unwrap();
    assert_eq!(old.port_name, "COM4");
    assert_eq!(old.stopped.get(), 1);
    assert!(!service.is_connected("COM4"));
    assert!(service.is_connected("COM5"));
    assert_eq!(service.get_controller("COM5").unwrap().baud_rate, BaudRate::BaudRate115200);
    let old = disconnect_and_connect(&mut service, "COM5", "COM5", BaudRate::BaudRate9600).unwrap();
    assert_eq!(old.baud_rate, BaudRate::BaudRate115200);
    assert_eq!(old.stopped.get(), 1);
    assert!(disconnect_and_connect(&mut service, "COM8", "COM6", BaudRate::BaudRate9600).is_none());
    assert!(service.is_connected("COM6"));
    assert_eq!(service.get_controller("COM5").unwrap().baud_rate, BaudRate::BaudRate9600);
}

#[test]
fn view_state() {
    let mut view = SerialView::new("Port 0".to_string(), 7u32);
    assert_eq!(view.get_port_name(), "Port 0");
    assert_eq!(view.baud_rate(), BaudRate::BaudRate115200);
    assert_eq!(*view.serial_service(), 7);
    assert!(view.is_autoscroll_enabled());
    assert_eq!(view.received_text().as_str(), "");
    view.receive("\x1b[31mhot\nrest");
    assert_eq!(view.received_text().as_str(), "\x1b[31mhot\nrest");
    let first = view.style_line(&"\x1b[31mhot".to_string());
    assert_eq!(first.len(), 1);
    let second = view.style_line(&"rest".to_string());
    assert_eq!(second[0].color, first[0].color);
    view.reset_style();
    view.set_port_name("COM7".to_string());
    view.set_baud_rate(BaudRate::BaudRate9600);
    assert_eq!(view.get_port_name(), "COM7");
    assert_eq!(view.baud_rate(), BaudRate::BaudRate9600);
    view.clear();
    assert_eq!(view.received_text().as_str(), "");
}

#[test]
fn baud_rates() {
    assert_eq!(BaudRate::iter(), vec![BaudRate::BaudRate9600, BaudRate::BaudRate115200]);
    assert_eq!(BaudRate::BaudRate9600.value(), 9600);
    assert_eq!(BaudRate::BaudRate115200.value(), 115200);
    assert_eq!(BaudRate::BaudRate9600.to_string(), "9600");
    assert_eq!(BaudRate::BaudRate115200.to_string(), "115200");
    assert_eq!(BaudRate::default(), BaudRate::BaudRate115200);
}
