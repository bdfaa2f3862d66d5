//! MIDI input ports: the list of them, and the connection to one.
use vstd::prelude::*;
use vstd::string::*;

use crate::app::App;
use crate::text::same_text;

verus! {

/// What an attempt to connect to a port led to.
#[derive(Debug)]
pub enum ConnectOutcome {
    /// MIDI input is not to be had, for this reason.
    NoInput(String),
    /// No port has the wanted name.
    NotFound,
    /// The port refused, for this reason.
    Refused(String),
    Connected,
}

/// How a port is listed, by its name if that could be read.
pub open spec fn port_label(name: Option<String>) -> Seq<char> {
    match name {
        Some(name) => name@,
        None => "<unknown>"@,
    }
}

/// Whether a port is known to have this name.
pub open spec fn is_named(port: Option<String>, name: Seq<char>) -> bool {
    port matches Some(n) && n@ == name
}

/// Whether some port is known to have this name.
pub open spec fn has_named(ports: Seq<Option<String>>, name: Seq<char>) -> bool {
    exists|j: int| 0 <= j < ports.len() && is_named(#[trigger] ports[j], name)
}

/// Whether a list of names holds this one.
pub open spec fn lists_name(names: Seq<String>, name: Seq<char>) -> bool {
    exists|i: int| 0 <= i < names.len() && (#[trigger] names[i])@ == name
}

/// Whether these names are how the ports of a scan are listed: none where there
/// was no scan.
pub open spec fn lists_scan(names: Seq<String>, scan: Option<Vec<Option<String>>>) -> bool {
    match scan {
        Some(ports) => {
            &&& names.len() == ports@.len()
            &&& forall|i: int| 0 <= i < names.len() ==> (#[trigger] names[i])@ == port_label(ports@[i])
        },
        None => names.len() == 0,
    }
}

/// The status after an attempt to connect.
pub open spec fn connect_status(name: Seq<char>, outcome: ConnectOutcome) -> Seq<char> {
    match outcome {
        ConnectOutcome::NoInput(e) => "MIDI error: "@ + e@,
        ConnectOutcome::NotFound => "MIDI port not found: "@ + name,
        ConnectOutcome::Refused(e) => "MIDI connect failed: "@ + e@,
        ConnectOutcome::Connected => "Connected to MIDI: "@ + name,
    }
}

/// The position of the first port with this name; a port whose name could not
/// be read has none.
pub fn find_port(ports: &Vec<Option<String>>, name: &str) -> (r: Option<usize>)
    ensures
        match r {
            Some(i) => {
                &&& i < ports@.len()
                &&& is_named(ports@[i as int], name@)
                &&& forall|j: int| 0 <= j < i ==> !is_named(#[trigger] ports@[j], name@)
            },
            None => forall|j: int| 0 <= j < ports@.len() ==> !is_named(#[trigger] ports@[j], name@),
        },
        r is Some <==> has_named(ports@, name@),
{
    for i in 0..ports.len()
        invariant
            forall|j: int| 0 <= j < i ==> !is_named(#[trigger] ports@[j], name@),
    {
        if let Some(port) = &ports[i] {
            if same_text(port.as_str(), name) {
                return Some(i);
            }
        }
    }
    None
}

impl App {
    /// Lists the ports that a scan found, each by its name if that could be
    /// read. Where MIDI input is not to be had, none are listed.
    pub fn refresh_ports(&mut self, scan: Option<Vec<Option<String>>>)
        ensures
            lists_scan(final(self).midi_ports@, scan),
            *final(self) == (App { midi_ports: final(self).midi_ports, ..*old(self) }),
    {
        let ghost given = scan;
        let mut names: Vec<String> = Vec::new();
        if let Some(ports) = scan {
            for port in iter: ports
                invariant
                    given == Some(ports),
                    iter.seq() == ports@,
                    names@.len() == iter.index(),
                    forall|j: int|
                        0 <= j < names@.len() ==> (#[trigger] names@[j])@ == port_label(ports@[j]),
            {
                match port {
                    Some(name) => names.push(name),
                    None => names.push("<unknown>".to_owned()),
                }
            }
        }
        self.midi_ports = names;
    }

    /// Opens the configuration, with the ports that a scan found.
    pub fn open_config(&mut self, scan: Option<Vec<Option<String>>>)
        ensures
            lists_scan(final(self).midi_ports@, scan),
            *final(self) == (App {
                show_config: true,
                midi_ports: final(self).midi_ports,
                ..*old(self)
            }),
    {
        self.show_config = true;
        self.refresh_ports(scan);
    }

    /// Whether a port of this name is listed.
    pub fn has_port(&self, name: &str) -> (r: bool)
        ensures
            r == lists_name(self.midi_ports@, name@),
    {
        for i in 0..self.midi_ports.len()
            invariant
                forall|j: int| 0 <= j < i ==> (#[trigger] self.midi_ports@[j])@ != name@,
        {
            if same_text(self.midi_ports[i].as_str(), name) {
                return true;
            }
        }
        false
    }

    /// Takes the outcome of connecting to the port `name`. The connection there
    /// was before is gone in any case.
    pub fn connect_port(&mut self, name: &str, outcome: ConnectOutcome)
        ensures
            match final(self).connected_port {
                Some(port) => outcome is Connected && port@ == name@,
                None => !(outcome is Connected),
            },
            final(self).status@ == connect_status(name@, outcome),
            *final(self) == (App {
                connected_port: final(self).connected_port,
                status: final(self).status,
                ..*old(self)
            }),
    {
        self.connected_port = None;
        match outcome {
            ConnectOutcome::NoInput(e) => {
                self.status = "MIDI error: ".to_owned().concat(e.as_str());
            },
            ConnectOutcome::NotFound => {
                self.status = "MIDI port not found: ".to_owned().concat(name);
            },
            ConnectOutcome::Refused(e) => {
                self.status = "MIDI connect failed: ".to_owned().concat(e.as_str());
            },
            ConnectOutcome::Connected => {
                self.connected_port = Some(name.to_owned());
                self.status = "Connected to MIDI: ".to_owned().concat(name);
            },
        }
    }

    /// The text shown for the connected port.
    pub fn port_text(&self) -> (r: String)
        ensures
            r@ == match self.connected_port {
                Some(port) => port@,
                None => "(none)"@,
            },
    {
        match &self.connected_port {
            Some(port) => port.clone(),
            None => "(none)".to_owned(),
        }
    }

    /// Whether the connected port has this name.
    pub fn is_connected_to(&self, name: &str) -> (r: bool)
        ensures
            r == is_named(self.connected_port, name@),
    {
        match &self.connected_port {
            Some(port) => same_text(port.as_str(), name),
            None => false,
        }
    }
}

} // verus!
