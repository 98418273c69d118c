use vstd::prelude::*;

use crate::packet::Packet;

verus! {

/// A message addressed to one connection's delivery channel.
#[derive(Clone, Debug)]
pub struct Delivery {
    pub conn: i32,
    pub packet: Packet,
}

/// A decoded message with the routing data of the connection that sent it:
/// its id (which also names its delivery channel), the peer's address and the
/// username given in the handshake.
#[derive(Clone, Debug)]
pub struct ServerPacket {
    pub packet: Packet,
    pub user: String,
    pub addr: String,
    pub id: i32,
}

impl ServerPacket {
    pub fn new(pkt: Packet, addr: String, id: i32, user: String) -> (r: ServerPacket)
        ensures
            r.packet == pkt,
            r.addr@ == addr@,
            r.id == id,
            r.user@ == user@,
    {
        ServerPacket { packet: pkt, user, addr, id }
    }

    pub fn pkt(&self) -> (r: &Packet)
        ensures
            *r == self.packet,
    {
        &self.packet
    }

    pub fn user(&self) -> (r: &String)
        ensures
            r@ == self.user@,
    {
        &self.user
    }

    pub fn addr(&self) -> (r: &String)
        ensures
            r@ == self.addr@,
    {
        &self.addr
    }

    pub fn id(&self) -> (r: i32)
        ensures
            r == self.id,
    {
        self.id
    }

    /// `pkt` addressed back to the connection this message came from.
    pub fn send(&self, pkt: Packet) -> (r: Delivery)
        ensures
            r.conn == self.id,
            r.packet == pkt,
    {
        Delivery { conn: self.id, packet: pkt }
    }

    /// Each of `pkts`, in order, addressed back to this connection.
    pub fn send_all(&self, pkts: Vec<Packet>) -> (r: Vec<Delivery>)
        ensures
            r.len() == pkts.len(),
            forall|k: int|
                0 <= k < r.len() ==> (#[trigger] r@[k]).conn == self.id && r@[k].packet
                    == pkts@[k],
    {
        let ghost all = pkts@;
        let mut rest = pkts;
        let mut r: Vec<Delivery> = Vec::new();
        while rest.len() > 0
            invariant
                r.len() + rest.len() == all.len(),
                rest@ == all.subrange(r.len() as int, all.len() as int),
                forall|k: int|
                    0 <= k < r.len() ==> (#[trigger] r@[k]).conn == self.id && r@[k].packet
                        == all[k],
            decreases rest.len(),
        {
            let p = rest.remove(0);
            r.push(Delivery { conn: self.id, packet: p });
            assert(rest@ =~= all.subrange(r.len() as int, all.len() as int));
        }
        r
    }
}

} // verus!
