use hicom::ports::{default_port, display_label, port_labels, strip_port, PortEntry, PortKind};
use hicom::text::port_name_only;

/// The expected label of one listed port.
fn reference_label(name: &String, kind: &PortKind) -> String {
    match kind {
        PortKind::Usb { manufacturer, product } => {
            let mfr = manufacturer.as_deref().unwrap_or("").trim();
            let prod = product.as_deref().unwrap_or("").trim();
            let strip_port = |s: &str| -> String {
                let s = s.trim_end();
                let pn = name.trim();
                let patterns = [format!(" ({})", pn), format!("({})", pn), format!(" {}", pn)];
                let mut r = s.to_string();
                for pat in &patterns {
                    if r.ends_with(pat) {
                        r = r[..r.len() - pat.len()].trim_end().to_string();
                        break;
                    }
                }
                r
            };
            let mfr = strip_port(mfr);
            let prod = strip_port(prod);
            if !mfr.is_empty() || !prod.is_empty() {
                format!(
                    "{}  [{}{}{}]",
                    name,
                    mfr,
                    if !mfr.is_empty() && !prod.is_empty() { " " } else { "" },
                    prod
                )
            } else {
                name.clone()
            }
        }
        PortKind::Bluetooth => format!("{}  [蓝牙]", name),
        PortKind::Pci => format!("{}  [PCI]", name),
        PortKind::Unknown => name.clone(),
    }
}

fn usb(name: &str, m: Option<&str>, p: Option<&str>) -> PortEntry {
    PortEntry {
        name: name.to_string(),
        kind: PortKind::Usb { manufacturer: m.map(|s| s.to_string()), product: p.map(|s| s.to_string()) },
    }
}

fn plain(name: &str, kind: PortKind) -> PortEntry {
    PortEntry { name: name.to_string(), kind }
}

fn samples() -> Vec<PortEntry> {
    vec![
        usb("COM23", Some("wch.cn"), Some("WCH-Link SERIAL (COM23)")),
        usb("COM5", Some("FTDI "), Some("USB Serial Port(COM5)")),
        usb("COM7", Some(" Prolific COM7 "), None),
        usb("COM8", None, None),
        usb("COM9", Some("  "), Some("COM9")),
        usb("/dev/ttyACM0", Some("Arduino"), Some("Uno")),
        usb(" COM1 ", Some("X ( COM1 )"), Some("Y (COM1)  ")),
        plain("COM3", PortKind::Bluetooth),
        plain("COM4", PortKind::Pci),
        plain("/dev/ttyS0", PortKind::Unknown),
        usb("COM23", Some("duplicate"), None),
        plain("COM3", PortKind::Pci),
    ]
}

#[test]
fn labels_match_reference() {
    for e in samples() {
        assert_eq!(display_label(&e), reference_label(&e.name, &e.kind), "{}", e.name);
    }
}

#[test]
fn labels_list_each_name_once_in_order() {
    let ps = samples();
    let mut seen = std::collections::HashSet::new();
    let expected: Vec<String> = ps
        .iter()
        .filter_map(|e| if seen.insert(e.name.clone()) { Some(reference_label(&e.name, &e.kind)) } else { None })
        .collect();
    assert_eq!(port_labels(&ps), expected);
    assert_eq!(port_labels(&ps).len(), 10);
}

#[test]
fn strip_port_examples() {
    assert_eq!(strip_port("WCH-Link SERIAL (COM23)", "COM23"), "WCH-Link SERIAL");
    assert_eq!(strip_port("Serial(COM5)  ", "COM5"), "Serial");
    assert_eq!(strip_port("Prolific COM7", " COM7 "), "Prolific");
    assert_eq!(strip_port("Nothing here", "COM1"), "Nothing here");
    assert_eq!(strip_port("", "COM1"), "");
}

#[test]
fn label_opens_its_own_port() {
    for e in samples() {
        if !e.name.contains(char::is_whitespace) {
            assert_eq!(port_name_only(&display_label(&e)), e.name);
        }
    }
}

#[test]
fn default_port_prefers_described() {
    let names = vec!["COM1".to_string(), "COM2  [PCI]".to_string(), "COM3  [X]".to_string()];
    assert_eq!(default_port(&names), "COM2  [PCI]");
    let names = vec!["COM1".to_string(), "COM2".to_string()];
    assert_eq!(default_port(&names), "COM1");
    assert_eq!(default_port(&Vec::new()), "");
}

#[test]
fn labels_give_back_distinct_names_in_order() {
    let ps = vec![
        usb("COM23", Some("wch.cn"), Some("WCH-Link SERIAL (COM23)")),
        plain("COM3", PortKind::Bluetooth),
        usb("COM23", Some("again"), None),
        plain("COM4", PortKind::Pci),
        plain("COM3", PortKind::Unknown),
        usb("COM8", None, None),
    ];
    let names: Vec<String> = port_labels(&ps).iter().map(|l| port_name_only(l)).collect();
    assert_eq!(names, vec!["COM23", "COM3", "COM4", "COM8"]);
}
