//! Putting a PPPoE session into the packet path of an interface.
use vstd::prelude::*;

verus! {

/// The header that is put in front of each outgoing packet. The session
/// number is held as its two bytes on the wire.
#[derive(Debug, Clone, Copy, PartialEq, Eq, Structural)]
pub struct PppoeEgressTmpl {
    pub session_id_high: u8,
    pub session_id_low: u8,
}

/// One step of putting a session into the packet path.
#[derive(Debug, Clone, Copy, PartialEq, Eq, Structural)]
pub enum PppoeStep {
    /// Load the program for outgoing packets with the header, and attach it.
    AttachEgress { ifindex: u32, tmpl: PppoeEgressTmpl },
    /// Load the program for incoming packets of the session.
    InitXdp { ifindex: u32, session_id: u16 },
    /// Load the fallback for interfaces without native support.
    PrepareFallback { session_id: u16 },
    /// Keep the fallback ready for the interface.
    SetFallback { ifindex: u32 },
}

/// A session in the packet path.
#[derive(Debug, PartialEq, Eq)]
pub struct PppoeHandle {
    pub ifindex: u32,
}

impl PppoeEgressTmpl {
    /// The session number.
    pub open spec fn session(self) -> u16 {
        (self.session_id_high * 0x100 + self.session_id_low) as u16
    }

    pub fn session_id(&self) -> (r: u16)
        ensures
            r == self.session(),
    {
        self.session_id_high as u16 * 0x100 + self.session_id_low as u16
    }

    pub fn for_session(session_id: u16) -> (r: Self)
        ensures
            r.session() == session_id,
    {
        PppoeEgressTmpl {
            session_id_high: (session_id / 0x100) as u8,
            session_id_low: (session_id % 0x100) as u8,
        }
    }
}

/// The steps for a session, in order.
pub open spec fn pppoe_steps(ifindex: u32, tmpl: PppoeEgressTmpl) -> Seq<PppoeStep> {
    seq![
        PppoeStep::AttachEgress { ifindex, tmpl },
        PppoeStep::InitXdp { ifindex, session_id: tmpl.session() },
        PppoeStep::PrepareFallback { session_id: tmpl.session() },
        PppoeStep::SetFallback { ifindex },
    ]
}

/// The steps that put a session into the packet path, and what is in place
/// once every one of them went well.
pub fn create_pppoe_handle(ifindex: u32, tmpl: PppoeEgressTmpl, _mtu: u16) -> (r: (
    Vec<PppoeStep>,
    PppoeHandle,
))
    ensures
        r.0@ == pppoe_steps(ifindex, tmpl),
        r.1.ifindex == ifindex,
{
    let session_id: u16 = tmpl.session_id();
    let steps = vec![
        PppoeStep::AttachEgress { ifindex, tmpl },
        PppoeStep::InitXdp { ifindex, session_id },
        PppoeStep::PrepareFallback { session_id },
        PppoeStep::SetFallback { ifindex },
    ];
    assert(steps@ =~= pppoe_steps(ifindex, tmpl));
    (steps, PppoeHandle { ifindex })
}

/// Both programs of a session work on the session number of the header.
pub proof fn law_one_session(ifindex: u32, tmpl: PppoeEgressTmpl, i: int)
    requires
        0 <= i < 4,
    ensures
        pppoe_steps(ifindex, tmpl)[i] matches PppoeStep::InitXdp { session_id, .. } ==> session_id
            == tmpl.session(),
        pppoe_steps(ifindex, tmpl)[i] matches PppoeStep::PrepareFallback { session_id }
            ==> session_id == tmpl.session(),
{
}

/// A session is put into the packet path in four steps on one interface: its
/// packets out, then those in, and then what takes over when there is no
/// session; the bytes of its number are those of the template, high byte first.
pub proof fn law_steps_of_a_session(ifindex: u32, tmpl: PppoeEgressTmpl)
    ensures
        ({
            let steps = pppoe_steps(ifindex, tmpl);
            let id = (tmpl.session_id_high as int * 256 + tmpl.session_id_low as int) as u16;
            &&& steps.len() == 4
            &&& steps[0] == (PppoeStep::AttachEgress { ifindex, tmpl })
            &&& steps[1] == (PppoeStep::InitXdp { ifindex, session_id: id })
            &&& steps[2] == (PppoeStep::PrepareFallback { session_id: id })
            &&& steps[3] == (PppoeStep::SetFallback { ifindex })
        }),
{
}

} // verus!
