//! The hardware and protocol boundaries the runtime reports truthfully.

use vstd::prelude::*;
use crate::connectivity::ConnectivityProtocol;

verus! {

#[derive(Debug, Clone, Copy, PartialEq, Eq, Structural)]
pub enum HardwareAdapterState {
    BoundaryReady,
    RequiresGenieOs,
}

#[derive(Debug, Clone, Copy, PartialEq, Eq, Structural)]
pub enum HardwareSupportLevel {
    RuntimeBoundary,
    RequiresGenieOsDriver,
}


/// A kind of work an adapter can do.
#[derive(Debug, Clone, Copy, PartialEq, Eq, Structural)]
pub enum HardwareCapability {
    HostTransport,
    DiscoveryReport,
    StateEvents,
    ActuationReport,
    Commissioning,
    BorderRouter,
    NetworkBackhaul,
}

/// The position of a capability in the order capabilities are listed.
pub open spec fn capability_rank(c: HardwareCapability) -> nat {
    match c {
        HardwareCapability::HostTransport => 0,
        HardwareCapability::DiscoveryReport => 1,
        HardwareCapability::StateEvents => 2,
        HardwareCapability::ActuationReport => 3,
        HardwareCapability::Commissioning => 4,
        HardwareCapability::BorderRouter => 5,
        HardwareCapability::NetworkBackhaul => 6,
    }
}

fn rank_of(c: HardwareCapability) -> (r: u8)
    ensures
        r == capability_rank(c),
{
    match c {
        HardwareCapability::HostTransport => 0,
        HardwareCapability::DiscoveryReport => 1,
        HardwareCapability::StateEvents => 2,
        HardwareCapability::ActuationReport => 3,
        HardwareCapability::Commissioning => 4,
        HardwareCapability::BorderRouter => 5,
        HardwareCapability::NetworkBackhaul => 6,
    }
}

/// The capabilities strictly increase in listing order, so none is there twice.
pub open spec fn capabilities_ordered(s: Seq<HardwareCapability>) -> bool {
    forall|i: int, j: int| 0 <= i < j < s.len() ==> capability_rank(#[trigger] s[i]) < capability_rank(#[trigger] s[j])
}

/// What the runtime can do over one protocol, and what needs the OS underneath.
#[derive(Debug, Clone)]
pub struct HardwareAdapterStatus {
    pub protocol: ConnectivityProtocol,
    pub state: HardwareAdapterState,
    pub support_level: HardwareSupportLevel,
    pub capabilities: Vec<HardwareCapability>,
    pub notes: Vec<String>,
}

pub struct AdapterView {
    pub protocol: ConnectivityProtocol,
    pub state: HardwareAdapterState,
    pub support_level: HardwareSupportLevel,
    pub capabilities: Set<HardwareCapability>,
    pub notes: Seq<Seq<char>>,
}

impl View for HardwareAdapterStatus {
    type V = AdapterView;

    open spec fn view(&self) -> AdapterView {
        AdapterView {
            protocol: self.protocol,
            state: self.state,
            support_level: self.support_level,
            capabilities: self.capabilities@.to_set(),
            notes: self.notes@.map_values(|s: String| s@),
        }
    }
}

/// The adapters, one per protocol.
#[derive(Debug, Clone)]
pub struct HardwareInventory {
    pub adapters: Vec<HardwareAdapterStatus>,
}

pub open spec fn boundary_row(p: ConnectivityProtocol, caps: Set<HardwareCapability>, note: Seq<char>) -> AdapterView {
    AdapterView {
        protocol: p,
        state: HardwareAdapterState::BoundaryReady,
        support_level: HardwareSupportLevel::RuntimeBoundary,
        capabilities: caps,
        notes: seq![note],
    }
}

pub open spec fn genie_os_row(p: ConnectivityProtocol, caps: Set<HardwareCapability>, note: Seq<char>) -> AdapterView {
    AdapterView {
        protocol: p,
        state: HardwareAdapterState::RequiresGenieOs,
        support_level: HardwareSupportLevel::RequiresGenieOsDriver,
        capabilities: caps,
        notes: seq![note],
    }
}

/// The adapters the runtime reports, in order.
pub open spec fn hardware_table() -> Seq<AdapterView> {
    seq![
        boundary_row(ConnectivityProtocol::Uart, set![HardwareCapability::HostTransport, HardwareCapability::DiscoveryReport, HardwareCapability::StateEvents, HardwareCapability::ActuationReport], "Runtime can ingest structured UART-originated reports. GenieOS owns the serial driver, framing, and reconnect policy."@),
        boundary_row(ConnectivityProtocol::Esp32C6, set![HardwareCapability::HostTransport, HardwareCapability::DiscoveryReport, HardwareCapability::StateEvents, HardwareCapability::ActuationReport], "Runtime supports ESP32-C6 as a reported connectivity source. ESP-Hosted-NG, Thread radio firmware, and host drivers belong in GenieOS."@),
        genie_os_row(ConnectivityProtocol::Matter, set![HardwareCapability::DiscoveryReport, HardwareCapability::StateEvents, HardwareCapability::ActuationReport, HardwareCapability::Commissioning], "Matter commissioning, fabric storage, and controller transport are GenieOS responsibilities. Runtime accepts normalized entities and safety-gates actions."@),
        genie_os_row(ConnectivityProtocol::Thread, set![HardwareCapability::DiscoveryReport, HardwareCapability::StateEvents, HardwareCapability::ActuationReport, HardwareCapability::Commissioning, HardwareCapability::BorderRouter], "Thread border-router and radio integration require GenieOS. Runtime can model Thread-backed devices after discovery."@),
        genie_os_row(ConnectivityProtocol::Zigbee, set![HardwareCapability::DiscoveryReport, HardwareCapability::StateEvents, HardwareCapability::ActuationReport, HardwareCapability::Commissioning], "Zigbee coordinator firmware, pairing, and radio transport require GenieOS or a bridge adapter."@),
        genie_os_row(ConnectivityProtocol::ZWave, set![HardwareCapability::DiscoveryReport, HardwareCapability::StateEvents, HardwareCapability::ActuationReport, HardwareCapability::Commissioning], "Z-Wave controller support requires GenieOS or a certified bridge adapter."@),
        genie_os_row(ConnectivityProtocol::Ble, set![HardwareCapability::DiscoveryReport, HardwareCapability::StateEvents, HardwareCapability::ActuationReport, HardwareCapability::Commissioning], "BLE scanning, pairing, and GATT transport are GenieOS responsibilities."@),
        genie_os_row(ConnectivityProtocol::Wifi, set![HardwareCapability::HostTransport, HardwareCapability::NetworkBackhaul, HardwareCapability::DiscoveryReport], "Wi-Fi is treated as GenieOS networking/backhaul unless a higher adapter reports concrete controllable entities."@),
    ]
}

/// The capabilities of `items`, each once, in listing order.
fn capability_set(items: &[HardwareCapability]) -> (r: Vec<HardwareCapability>)
    ensures
        capabilities_ordered(r@),
        r@.to_set() == items@.to_set(),
{
    let mut out: Vec<HardwareCapability> = Vec::new();
    let mut i: usize = 0;
    while i < items.len()
        invariant
            i <= items@.len(),
            capabilities_ordered(out@),
            out@.to_set() == items@.take(i as int).to_set(),
        decreases items@.len() - i,
    {
        let c = items[i];
        let rc = rank_of(c);
        let mut p: usize = 0;
        while p < out.len() && rank_of(out[p]) < rc
            invariant
                p <= out@.len(),
                rc == capability_rank(c),
                forall|k: int| 0 <= k < p ==> capability_rank(#[trigger] out@[k]) < rc,
            decreases out@.len() - p,
        {
            p = p + 1;
        }
        let ghost before = out@;
        if p < out.len() && rank_of(out[p]) == rc {
            proof {
                assert(out@[p as int] == c) by {
                    assert(capability_rank(out@[p as int]) == capability_rank(c));
                }
                assert(items@.take(i + 1) =~= items@.take(i as int).push(c));
                assert(out@.to_set() =~= items@.take(i + 1).to_set()) by {
                    assert(out@.contains(c));
                }
            }
        } else {
            out.insert(p, c);
            proof {
                assert(out@ == before.insert(p as int, c));
                assert forall|a: int, b: int| 0 <= a < b < out@.len() implies capability_rank(
                    #[trigger] out@[a],
                ) < capability_rank(#[trigger] out@[b]) by {
                    if b < p {
                        assert(out@[a] == before[a] && out@[b] == before[b]);
                    } else if b == p {
                        assert(out@[a] == before[a]);
                    } else if a < p {
                        assert(out@[a] == before[a] && out@[b] == before[b - 1]);
                    } else if a == p {
                        assert(out@[b] == before[b - 1]);
                        if b - 1 > p {
                            assert(capability_rank(before[p as int]) < capability_rank(before[b - 1]));
                        }
                    } else {
                        assert(out@[a] == before[a - 1] && out@[b] == before[b - 1]);
                    }
                }
                let pre = items@.take(i as int);
                let post = items@.take(i + 1);
                assert(post =~= pre.push(c));
                assert forall|x: HardwareCapability| out@.contains(x) <==> post.contains(x) by {
                    assert(before.to_set().contains(x) == before.contains(x));
                    assert(pre.to_set().contains(x) == pre.contains(x));
                    if out@.contains(x) {
                        let k = choose|k: int| 0 <= k < out@.len() && out@[k] == x;
                        if k < p {
                            assert(before[k] == x);
                            assert(before.contains(x));
                        } else if k > p {
                            assert(before[k - 1] == x);
                            assert(before.contains(x));
                        } else {
                            assert(post[i as int] == x);
                        }
                        if before.contains(x) {
                            let q = choose|q: int| 0 <= q < pre.len() && pre[q] == x;
                            assert(post[q] == x);
                        }
                    }
                    if post.contains(x) {
                        let k = choose|k: int| 0 <= k < post.len() && post[k] == x;
                        if k < i {
                            assert(pre[k] == x);
                            assert(pre.contains(x));
                            assert(before.contains(x));
                            let q = choose|q: int| 0 <= q < before.len() && before[q] == x;
                            if q < p {
                                assert(out@[q] == x);
                            } else {
                                assert(out@[q + 1] == x);
                            }
                        } else {
                            assert(out@[p as int] == x);
                        }
                    }
                }
                assert(out@.to_set() =~= items@.take(i + 1).to_set());
            }
        }
        i = i + 1;
    }
    proof {
        assert(items@.take(items@.len() as int) =~= items@);
    }
    out
}

fn one_note(note: &str) -> (r: Vec<String>)
    ensures
        r@.map_values(|s: String| s@) == seq![note@],
{
    let mut v: Vec<String> = Vec::new();
    v.push(String::from_str(note));
    assert(v@.map_values(|s: String| s@) =~= seq![note@]);
    v
}

/// An adapter whose protocol the runtime handles at its own boundary.
fn boundary_adapter(protocol: ConnectivityProtocol, capabilities: &[HardwareCapability], note: &str) -> (r:
    HardwareAdapterStatus)
    ensures
        r@ == boundary_row(protocol, capabilities@.to_set(), note@),
        capabilities_ordered(r.capabilities@),
{
    HardwareAdapterStatus {
        protocol,
        state: HardwareAdapterState::BoundaryReady,
        support_level: HardwareSupportLevel::RuntimeBoundary,
        capabilities: capability_set(capabilities),
        notes: one_note(note),
    }
}

/// An adapter whose protocol needs drivers in the OS underneath.
fn genie_os_adapter(protocol: ConnectivityProtocol, capabilities: &[HardwareCapability], note: &str) -> (r:
    HardwareAdapterStatus)
    ensures
        r@ == genie_os_row(protocol, capabilities@.to_set(), note@),
        capabilities_ordered(r.capabilities@),
{
    HardwareAdapterStatus {
        protocol,
        state: HardwareAdapterState::RequiresGenieOs,
        support_level: HardwareSupportLevel::RequiresGenieOsDriver,
        capabilities: capability_set(capabilities),
        notes: one_note(note),
    }
}

/// The hardware inventory the runtime reports: the boundary it handles itself
/// (UART, ESP32-C6) and the radios that need drivers underneath it.
pub fn default_hardware_inventory() -> (r: HardwareInventory)
    ensures
        r.adapters@.map_values(|a: HardwareAdapterStatus| a@) == hardware_table(),
        forall|i: int| 0 <= i < r.adapters@.len() ==> capabilities_ordered(#[trigger] r.adapters@[i].capabilities@),
{
    let mut adapters: Vec<HardwareAdapterStatus> = Vec::new();
    let caps = [HardwareCapability::HostTransport, HardwareCapability::DiscoveryReport, HardwareCapability::StateEvents, HardwareCapability::ActuationReport];
    proof {
        assert(caps@.to_set() =~= set![HardwareCapability::HostTransport, HardwareCapability::DiscoveryReport, HardwareCapability::StateEvents, HardwareCapability::ActuationReport]);
    }
    adapters.push(boundary_adapter(ConnectivityProtocol::Uart, &caps, "Runtime can ingest structured UART-originated reports. GenieOS owns the serial driver, framing, and reconnect policy."));
    let caps = [HardwareCapability::HostTransport, HardwareCapability::DiscoveryReport, HardwareCapability::StateEvents, HardwareCapability::ActuationReport];
    proof {
        assert(caps@.to_set() =~= set![HardwareCapability::HostTransport, HardwareCapability::DiscoveryReport, HardwareCapability::StateEvents, HardwareCapability::ActuationReport]);
    }
    adapters.push(boundary_adapter(ConnectivityProtocol::Esp32C6, &caps, "Runtime supports ESP32-C6 as a reported connectivity source. ESP-Hosted-NG, Thread radio firmware, and host drivers belong in GenieOS."));
    let caps = [HardwareCapability::DiscoveryReport, HardwareCapability::StateEvents, HardwareCapability::ActuationReport, HardwareCapability::Commissioning];
    proof {
        assert(caps@.to_set() =~= set![HardwareCapability::DiscoveryReport, HardwareCapability::StateEvents, HardwareCapability::ActuationReport, HardwareCapability::Commissioning]);
    }
    adapters.push(genie_os_adapter(ConnectivityProtocol::Matter, &caps, "Matter commissioning, fabric storage, and controller transport are GenieOS responsibilities. Runtime accepts normalized entities and safety-gates actions."));
    let caps = [HardwareCapability::DiscoveryReport, HardwareCapability::StateEvents, HardwareCapability::ActuationReport, HardwareCapability::Commissioning, HardwareCapability::BorderRouter];
    proof {
        assert(caps@.to_set() =~= set![HardwareCapability::DiscoveryReport, HardwareCapability::StateEvents, HardwareCapability::ActuationReport, HardwareCapability::Commissioning, HardwareCapability::BorderRouter]);
    }
    adapters.push(genie_os_adapter(ConnectivityProtocol::Thread, &caps, "Thread border-router and radio integration require GenieOS. Runtime can model Thread-backed devices after discovery."));
    let caps = [HardwareCapability::DiscoveryReport, HardwareCapability::StateEvents, HardwareCapability::ActuationReport, HardwareCapability::Commissioning];
    proof {
        assert(caps@.to_set() =~= set![HardwareCapability::DiscoveryReport, HardwareCapability::StateEvents, HardwareCapability::ActuationReport, HardwareCapability::Commissioning]);
    }
    adapters.push(genie_os_adapter(ConnectivityProtocol::Zigbee, &caps, "Zigbee coordinator firmware, pairing, and radio transport require GenieOS or a bridge adapter."));
    let caps = [HardwareCapability::DiscoveryReport, HardwareCapability::StateEvents, HardwareCapability::ActuationReport, HardwareCapability::Commissioning];
    proof {
        assert(caps@.to_set() =~= set![HardwareCapability::DiscoveryReport, HardwareCapability::StateEvents, HardwareCapability::ActuationReport, HardwareCapability::Commissioning]);
    }
    adapters.push(genie_os_adapter(ConnectivityProtocol::ZWave, &caps, "Z-Wave controller support requires GenieOS or a certified bridge adapter."));
    let caps = [HardwareCapability::DiscoveryReport, HardwareCapability::StateEvents, HardwareCapability::ActuationReport, HardwareCapability::Commissioning];
    proof {
        assert(caps@.to_set() =~= set![HardwareCapability::DiscoveryReport, HardwareCapability::StateEvents, HardwareCapability::ActuationReport, HardwareCapability::Commissioning]);
    }
    adapters.push(genie_os_adapter(ConnectivityProtocol::Ble, &caps, "BLE scanning, pairing, and GATT transport are GenieOS responsibilities."));
    let caps = [HardwareCapability::HostTransport, HardwareCapability::NetworkBackhaul, HardwareCapability::DiscoveryReport];
    proof {
        assert(caps@.to_set() =~= set![HardwareCapability::HostTransport, HardwareCapability::NetworkBackhaul, HardwareCapability::DiscoveryReport]);
    }
    adapters.push(genie_os_adapter(ConnectivityProtocol::Wifi, &caps, "Wi-Fi is treated as GenieOS networking/backhaul unless a higher adapter reports concrete controllable entities."));
    proof {
        assert(adapters@.map_values(|a: HardwareAdapterStatus| a@) =~= hardware_table());
    }
    HardwareInventory { adapters }
}

/// Matter, Thread, Zigbee, Z-Wave and BLE are reported as needing drivers
/// underneath the runtime, never as handled by it.
pub proof fn radio_protocols_require_genie_os()
    ensures
        forall|i: int|
            0 <= i < hardware_table().len() && (#[trigger] hardware_table()[i]).protocol != ConnectivityProtocol::Uart
                && hardware_table()[i].protocol != ConnectivityProtocol::Esp32C6
                && hardware_table()[i].protocol != ConnectivityProtocol::Wifi ==> hardware_table()[i].support_level
                == HardwareSupportLevel::RequiresGenieOsDriver && hardware_table()[i].state
                == HardwareAdapterState::RequiresGenieOs,
        forall|i: int, j: int|
            0 <= i < j < hardware_table().len() ==> (#[trigger] hardware_table()[i]).protocol != (
            #[trigger] hardware_table()[j]).protocol,
{
}

} // verus!
