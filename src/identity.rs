use vstd::prelude::*;
use vstd::string::StringExecFns;
use crate::keyed::{lemma_to_map_lacks, lemma_to_map_latest, to_map};
use crate::node::{Client, Vehicle};

verus! {

/// A source of secret material, looked up by identity within a role.
pub trait NaiveDb {
    /// The secret registered for each control identity.
    spec fn client_secrets(&self) -> Map<Seq<char>, Seq<char>>;

    /// The secret registered for each actuator identity.
    spec fn vehicle_secrets(&self) -> Map<Seq<char>, Seq<char>>;

    fn get_client(&self, id: &str) -> (r: Option<&Client>)
        ensures
            match r {
                Some(c) => self.client_secrets().contains_key(id@) && c.id@ == id@
                    && c.secret_key@ == self.client_secrets()[id@],
                None => !self.client_secrets().contains_key(id@),
            },
    ;

    fn get_vehicle(&self, id: &str) -> (r: Option<&Vehicle>)
        ensures
            match r {
                Some(v) => self.vehicle_secrets().contains_key(id@) && v.id@ == id@
                    && v.secret_key@ == self.vehicle_secrets()[id@],
                None => !self.vehicle_secrets().contains_key(id@),
            },
    ;
}

/// The in-memory identity store: one list of peers per role. Where an id
/// occurs twice in a list, its last entry is the one that counts.
pub struct CacheDb {
    vehicles: Vec<Vehicle>,
    clients: Vec<Client>,
}

pub open spec fn client_entries(s: Seq<Client>) -> Seq<(Seq<char>, Seq<char>)> {
    s.map_values(|c: Client| (c.id@, c.secret_key@))
}

pub open spec fn vehicle_entries(s: Seq<Vehicle>) -> Seq<(Seq<char>, Seq<char>)> {
    s.map_values(|v: Vehicle| (v.id@, v.secret_key@))
}

impl CacheDb {
    /// The store with its single fixture entry per role.
    pub fn new() -> (r: Self)
        ensures
            r.client_secrets() == map![
                "EmilyClient"@ => "EmilyClientSecret"@,
            ],
            r.vehicle_secrets() == map![
                "EmilyVehicle"@ => "EmilyVehicleSecret"@,
            ],
    {
        let vehicles = vec![
            Vehicle {
                id: String::from_str("EmilyVehicle"),
                secret_key: String::from_str("EmilyVehicleSecret"),
            },
        ];
        let clients = vec![
            Client {
                id: String::from_str("EmilyClient"),
                secret_key: String::from_str("EmilyClientSecret"),
            },
        ];
        let r = CacheDb { vehicles, clients };
        proof {
            let c = client_entries(r.clients@);
            let v = vehicle_entries(r.vehicles@);
            assert(c.len() == 1 && c[0] == ("EmilyClient"@, "EmilyClientSecret"@));
            assert(v.len() == 1 && v[0] == ("EmilyVehicle"@, "EmilyVehicleSecret"@));
            assert(c.drop_last() =~= Seq::empty());
            assert(v.drop_last() =~= Seq::empty());
            assert(to_map(c.drop_last()) == Map::<Seq<char>, Seq<char>>::empty());
            assert(to_map(v.drop_last()) == Map::<Seq<char>, Seq<char>>::empty());
            assert(r.client_secrets() =~= map!["EmilyClient"@ => "EmilyClientSecret"@]);
            assert(r.vehicle_secrets() =~= map!["EmilyVehicle"@ => "EmilyVehicleSecret"@]);
        }
        r
    }
}

impl CacheDb {
    /// Registers `secret_key` for the control identity `id`, replacing any
    /// secret it had.
    pub fn set_client_secret(&mut self, id: String, secret_key: String)
        ensures
            final(self).client_secrets() == old(self).client_secrets().insert(id@, secret_key@),
            final(self).vehicle_secrets() == old(self).vehicle_secrets(),
    {
        let ghost s0 = client_entries(self.clients@);
        self.clients.push(Client { id, secret_key });
        assert(client_entries(self.clients@).drop_last() =~= s0);
    }

    /// Registers `secret_key` for the actuator identity `id`, replacing any
    /// secret it had.
    pub fn set_vehicle_secret(&mut self, id: String, secret_key: String)
        ensures
            final(self).vehicle_secrets() == old(self).vehicle_secrets().insert(id@, secret_key@),
            final(self).client_secrets() == old(self).client_secrets(),
    {
        let ghost s0 = vehicle_entries(self.vehicles@);
        self.vehicles.push(Vehicle { id, secret_key });
        assert(vehicle_entries(self.vehicles@).drop_last() =~= s0);
    }
}

impl NaiveDb for CacheDb {
    closed spec fn client_secrets(&self) -> Map<Seq<char>, Seq<char>> {
        to_map(client_entries(self.clients@))
    }

    closed spec fn vehicle_secrets(&self) -> Map<Seq<char>, Seq<char>> {
        to_map(vehicle_entries(self.vehicles@))
    }

    fn get_client(&self, id: &str) -> (r: Option<&Client>)
        ensures
            match r {
                Some(c) => self.client_secrets().contains_key(id@) && c.id@ == id@
                    && c.secret_key@ == self.client_secrets()[id@],
                None => !self.client_secrets().contains_key(id@),
            },
    {
        let key = String::from_str(id);
        let ghost s = client_entries(self.clients@);
        let mut i: usize = self.clients.len();
        while i > 0
            invariant
                i <= self.clients@.len(),
                s == client_entries(self.clients@),
                key@ == id@,
                forall|j: int| i <= j < s.len() ==> #[trigger] s[j].0 != id@,
            decreases i,
        {
            i -= 1;
            if self.clients[i].id == key {
                proof {
                    lemma_to_map_latest(s, i as int);
                }
                return Some(&self.clients[i]);
            }
        }
        proof {
            lemma_to_map_lacks(s, id@);
        }
        None
    }

    fn get_vehicle(&self, id: &str) -> (r: Option<&Vehicle>)
        ensures
            match r {
                Some(v) => self.vehicle_secrets().contains_key(id@) && v.id@ == id@
                    && v.secret_key@ == self.vehicle_secrets()[id@],
                None => !self.vehicle_secrets().contains_key(id@),
            },
    {
        let key = String::from_str(id);
        let ghost s = vehicle_entries(self.vehicles@);
        let mut i: usize = self.vehicles.len();
        while i > 0
            invariant
                i <= self.vehicles@.len(),
                s == vehicle_entries(self.vehicles@),
                key@ == id@,
                forall|j: int| i <= j < s.len() ==> #[trigger] s[j].0 != id@,
            decreases i,
        {
            i -= 1;
            if self.vehicles[i].id == key {
                proof {
                    lemma_to_map_latest(s, i as int);
                }
                return Some(&self.vehicles[i]);
            }
        }
        proof {
            lemma_to_map_lacks(s, id@);
        }
        None
    }
}

} // verus!
