//! What happens before the first reading: sensors are found, tables are made,
//! and the hardware is described.

use crate::sensor::{GPUSensor, SensorError, SensorType};
use crate::text::concat2;
use crate::topics::{hardware_info_topic, hardware_topic};
use vstd::prelude::*;

verus! {

/// Who made a GPU.
#[derive(Clone, Copy, Debug, PartialEq, Eq, Structural)]
pub enum GPUVendor {
    Nvidia,
    Amd,
    Intel,
    Other,
}

/// The place of GPU `i` among those of its vendor. Nothing is known of the
/// others' driver, so all of them have place zero.
pub open spec fn vendor_index(vendors: Seq<GPUVendor>, i: int) -> nat {
    if vendors[i] is Other {
        0
    } else {
        count_of(vendors.take(i), vendors[i])
    }
}

/// How many GPUs are of a vendor.
pub open spec fn count_of(vendors: Seq<GPUVendor>, vendor: GPUVendor) -> nat {
    vendors.filter(|v: GPUVendor| v == vendor).len()
}

proof fn lemma_count_push(vendors: Seq<GPUVendor>, v: GPUVendor, vendor: GPUVendor)
    ensures
        count_of(vendors.push(v), vendor) == count_of(vendors, vendor) + (if v == vendor { 1nat } else { 0 }),
        count_of(vendors, vendor) <= vendors.len(),
{
    reveal(Seq::filter);
    assert(vendors.push(v).drop_last() == vendors);
    vendors.lemma_filter_len(|v: GPUVendor| v == vendor);
}

/// Numbers the GPUs of each vendor in the order in which they were found.
pub fn vendor_indices(vendors: &Vec<GPUVendor>) -> (r: Vec<u32>)
    requires
        vendors@.len() <= u32::MAX,
    ensures
        r@.len() == vendors@.len(),
        forall|i: int| 0 <= i < r@.len() ==> #[trigger] r@[i] == vendor_index(vendors@, i),
{
    let mut r: Vec<u32> = Vec::new();
    let mut nvidia: u32 = 0;
    let mut amd: u32 = 0;
    let mut intel: u32 = 0;
    proof {
        reveal(Seq::filter);
        assert(vendors@.take(0) == Seq::<GPUVendor>::empty());
    }
    for i in 0..vendors.len()
        invariant
            vendors@.len() <= u32::MAX,
            r@.len() == i,
            nvidia == count_of(vendors@.take(i as int), GPUVendor::Nvidia),
            amd == count_of(vendors@.take(i as int), GPUVendor::Amd),
            intel == count_of(vendors@.take(i as int), GPUVendor::Intel),
            forall|j: int| 0 <= j < r@.len() ==> #[trigger] r@[j] == vendor_index(vendors@, j),
    {
        let vendor = vendors[i];
        proof {
            let seen = vendors@.take(i as int);
            assert(vendors@.take(i + 1) == seen.push(vendor));
            lemma_count_push(seen, vendor, GPUVendor::Nvidia);
            lemma_count_push(seen, vendor, GPUVendor::Amd);
            lemma_count_push(seen, vendor, GPUVendor::Intel);
        }
        match vendor {
            GPUVendor::Nvidia => {
                r.push(nvidia);
                nvidia += 1;
            },
            GPUVendor::Amd => {
                r.push(amd);
                amd += 1;
            },
            GPUVendor::Intel => {
                r.push(intel);
                intel += 1;
            },
            GPUVendor::Other => {
                r.push(0);
            },
        }
    }
    r
}

/// Two GPUs of one known vendor never share an index.
pub proof fn law_vendor_indices_are_distinct(vendors: Seq<GPUVendor>, i: int, j: int)
    requires
        0 <= i < j < vendors.len(),
        vendors[i] == vendors[j],
        !(vendors[i] is Other),
    ensures
        vendor_index(vendors, i) < vendor_index(vendors, j),
{
    lemma_count_grows(vendors, vendors[i], i, j);
}

proof fn lemma_count_grows(vendors: Seq<GPUVendor>, vendor: GPUVendor, i: int, j: int)
    requires
        0 <= i < j <= vendors.len(),
        vendors[i] == vendor,
    ensures
        count_of(vendors.take(i), vendor) < count_of(vendors.take(j), vendor),
    decreases j,
{
    assert(vendors.take(j) == vendors.take(j - 1).push(vendors[j - 1]));
    lemma_count_push(vendors.take(j - 1), vendors[j - 1], vendor);
    if j > i + 1 {
        lemma_count_grows(vendors, vendor, i, j - 1);
    }
}

/// The GPUs whose sensor could be opened, in order.
pub open spec fn opened<S>(gpus: Seq<Result<GPUSensor<S>, SensorError>>) -> Seq<SensorType<S>>
    decreases gpus.len(),
{
    if gpus.len() == 0 {
        Seq::empty()
    } else {
        match gpus.last() {
            Ok(g) => opened(gpus.drop_last()).push(SensorType::GPU(g)),
            Err(_) => opened(gpus.drop_last()),
        }
    }
}

/// The sensors of a node: the processor and the GPUs as far as they could be
/// opened, then memory, disk and network.
pub open spec fn found_sensors<S>(
    cpu: Result<S, SensorError>,
    gpus: Seq<Result<GPUSensor<S>, SensorError>>,
    ram: S,
    disk: S,
    network: S,
) -> Seq<SensorType<S>> {
    let first = match cpu {
        Ok(s) => seq![SensorType::CPU(s)],
        Err(_) => Seq::empty(),
    };
    first + opened(gpus) + seq![
        SensorType::RAM(ram),
        SensorType::Disk(disk),
        SensorType::Network(network),
    ]
}

/// Puts the sensors of a node together. One that could not be opened is left
/// out.
pub fn assemble_sensors<S>(
    cpu: Result<S, SensorError>,
    gpus: Vec<Result<GPUSensor<S>, SensorError>>,
    ram: S,
    disk: S,
    network: S,
) -> (r: Vec<SensorType<S>>)
    ensures
        r@ == found_sensors(cpu, gpus@, ram, disk, network),
{
    let ghost all = gpus@;
    let mut r: Vec<SensorType<S>> = Vec::new();
    match cpu {
        Ok(s) => r.push(SensorType::CPU(s)),
        Err(_) => {},
    }
    let ghost first = r@;
    assert(all.take(0) == Seq::<Result<GPUSensor<S>, SensorError>>::empty());
    for gpu in it: gpus
        invariant
            it.seq() == all,
            r@ == first + opened(all.take(it.index())),
    {
        proof {
            assert(all.take(it.index() + 1).drop_last() == all.take(it.index()));
            assert(all.take(it.index() + 1).last() == gpu);
        }
        match gpu {
            Ok(g) => r.push(SensorType::GPU(g)),
            Err(_) => {},
        }
        assert(r@ =~= first + opened(all.take(it.index() + 1)));
    }
    assert(all.take(all.len() as int) == all);
    r.push(SensorType::RAM(ram));
    r.push(SensorType::Disk(disk));
    r.push(SensorType::Network(network));
    assert(r@ =~= found_sensors(cpu, all, ram, disk, network));
    r
}

/// How far initialization has come.
#[derive(Debug)]
pub enum InitPhase {
    /// The tables are being made.
    Tables,
    /// The hardware is being described.
    Gathering,
    /// The description is being saved.
    Saving,
    /// The description is being published.
    Publishing,
    /// The node is ready.
    Ready,
    /// The node cannot start, for the reason given.
    Refused(String),
}

/// What initialization does next.
#[derive(Debug)]
pub enum InitAction {
    /// Make the tables.
    CreateTables,
    /// Describe the hardware.
    GatherHardware,
    /// Save the description.
    SaveHardware,
    /// Publish the description to a topic.
    PublishHardware(String),
    /// Stop, with the outcome.
    Finish(Result<(), String>),
}

/// Initialization after the sensors have been found.
#[derive(Debug)]
pub struct Initialization {
    pub has_database: bool,
    pub node_id: Option<String>,
    pub phase: InitPhase,
}

impl Initialization {
    /// Nothing is saved without a database, and nothing is published without a
    /// broker.
    pub open spec fn well_formed(self) -> bool {
        &&& self.phase is Tables || self.phase is Saving ==> self.has_database
        &&& self.phase is Publishing ==> self.node_id is Some
    }

    /// The phase that follows once the description has been saved, or needs
    /// no saving.
    pub open spec fn after_saving(self) -> InitPhase {
        if self.node_id is Some {
            InitPhase::Publishing
        } else {
            InitPhase::Ready
        }
    }

    /// The phase after the current one has ended in `outcome` is `next`. Only
    /// tables that cannot be made keep a node from starting.
    pub open spec fn moves_on(self, outcome: Result<(), String>, next: InitPhase) -> bool {
        match self.phase {
            InitPhase::Tables => match outcome {
                Ok(_) => next is Gathering,
                Err(e) => next matches InitPhase::Refused(m) && m@
                    == "Failed to create database tables: "@ + e@,
            },
            InitPhase::Gathering => if self.has_database {
                next is Saving
            } else {
                next == self.after_saving()
            },
            InitPhase::Saving => next == self.after_saving(),
            InitPhase::Publishing => next is Ready,
            InitPhase::Ready => next is Ready,
            InitPhase::Refused(_) => next == self.phase,
        }
    }

    /// The action is what the phase asks for.
    pub open spec fn asks_for(self, action: InitAction) -> bool {
        match self.phase {
            InitPhase::Tables => action is CreateTables,
            InitPhase::Gathering => action is GatherHardware,
            InitPhase::Saving => action is SaveHardware,
            InitPhase::Publishing => action matches InitAction::PublishHardware(topic) && topic@
                == hardware_topic(self.node_id->0@),
            InitPhase::Ready => action matches InitAction::Finish(Ok(_)),
            InitPhase::Refused(m) => action == InitAction::Finish(Err(m)),
        }
    }

    /// Starts initialization: with the tables, if there is a database.
    pub fn start(has_database: bool, node_id: Option<String>) -> (r: Initialization)
        ensures
            r.has_database == has_database,
            r.node_id == node_id,
            r.well_formed(),
            has_database ==> r.phase is Tables,
            !has_database ==> r.phase is Gathering,
    {
        let phase = if has_database {
            InitPhase::Tables
        } else {
            InitPhase::Gathering
        };
        Initialization { has_database, node_id, phase }
    }

    /// What is to be done now.
    pub fn action(&self) -> (r: InitAction)
        requires
            self.well_formed(),
        ensures
            self.asks_for(r),
    {
        match &self.phase {
            InitPhase::Tables => InitAction::CreateTables,
            InitPhase::Gathering => InitAction::GatherHardware,
            InitPhase::Saving => InitAction::SaveHardware,
            InitPhase::Publishing => match &self.node_id {
                Some(id) => InitAction::PublishHardware(hardware_info_topic(id.as_str())),
                None => InitAction::Finish(Ok(())),
            },
            InitPhase::Ready => InitAction::Finish(Ok(())),
            InitPhase::Refused(m) => InitAction::Finish(Err(m.clone())),
        }
    }

    /// Takes note of how the current action ended.
    pub fn advance(&mut self, outcome: Result<(), String>)
        requires
            old(self).well_formed(),
        ensures
            final(self).well_formed(),
            final(self).has_database == old(self).has_database,
            final(self).node_id == old(self).node_id,
            old(self).moves_on(outcome, final(self).phase),
    {
        let after_saving = if self.node_id.is_some() {
            InitPhase::Publishing
        } else {
            InitPhase::Ready
        };
        let next = match &self.phase {
            InitPhase::Tables => match outcome {
                Ok(_) => InitPhase::Gathering,
                Err(e) => InitPhase::Refused(
                    concat2("Failed to create database tables: ", e.as_str()),
                ),
            },
            InitPhase::Gathering => if self.has_database {
                InitPhase::Saving
            } else {
                after_saving
            },
            InitPhase::Saving => after_saving,
            InitPhase::Publishing => InitPhase::Ready,
            InitPhase::Ready => InitPhase::Ready,
            InitPhase::Refused(m) => InitPhase::Refused(m.clone()),
        };
        self.phase = next;
    }
}

/// How many steps are left at most.
pub open spec fn steps_left(phase: InitPhase) -> nat {
    match phase {
        InitPhase::Tables => 4,
        InitPhase::Gathering => 3,
        InitPhase::Saving => 2,
        InitPhase::Publishing => 1,
        InitPhase::Ready => 0,
        InitPhase::Refused(_) => 0,
    }
}

/// Initialization comes to an end: every step leaves fewer, and one that has
/// ended stays as it is.
pub proof fn law_initialization_ends(init: Initialization, outcome: Result<(), String>, next: InitPhase)
    requires
        init.moves_on(outcome, next),
    ensures
        steps_left(init.phase) > 0 ==> steps_left(next) < steps_left(init.phase),
        steps_left(init.phase) == 0 ==> next == init.phase,
{
}

/// Only tables that cannot be made stop a node: no other failure does.
pub proof fn law_only_tables_refuse(init: Initialization, outcome: Result<(), String>, next: InitPhase)
    requires
        init.moves_on(outcome, next),
        !(init.phase is Refused),
    ensures
        next is Refused <==> init.phase is Tables && outcome is Err,
{
}

/// Of each known vendor the first GPU has index zero, and every further one the
/// next index; a GPU of another vendor always has index zero.
pub proof fn law_gpus_of_a_vendor_are_numbered(vendors: Vec<GPUVendor>, r: Vec<u32>, i: int, j: int)
    requires
        call_ensures(vendor_indices, (&vendors,), r),
        0 <= i < j < vendors@.len(),
    ensures
        r@.len() == vendors@.len(),
        vendors@[j] is Other ==> r@[j] == 0,
        (forall|k: int| 0 <= k < j ==> (#[trigger] vendors@[k]) != vendors@[j]) ==> r@[j] == 0,
        vendors@[j] !is Other && vendors@[i] == vendors@[j] && (forall|k: int|
            i < k < j ==> (#[trigger] vendors@[k]) != vendors@[j]) ==> r@[j] == r@[i] + 1,
{
    let v = vendors@[j];
    assert(r@[i] == vendor_index(vendors@, i));
    assert(r@[j] == vendor_index(vendors@, j));
    if forall|k: int| 0 <= k < j ==> (#[trigger] vendors@[k]) != v {
        lemma_count_between(vendors@, v, 0, j);
        reveal(Seq::filter);
        assert(vendors@.take(0) == Seq::<GPUVendor>::empty());
    }
    if vendors@[i] == v && forall|k: int| i < k < j ==> (#[trigger] vendors@[k]) != v {
        lemma_count_between(vendors@, v, i + 1, j);
        assert(vendors@.take(i + 1) == vendors@.take(i).push(vendors@[i]));
        lemma_count_push(vendors@.take(i), vendors@[i], v);
    }
}

/// The first GPU of all has index zero.
pub proof fn law_the_first_gpu_has_index_zero(vendors: Vec<GPUVendor>, r: Vec<u32>)
    requires
        call_ensures(vendor_indices, (&vendors,), r),
        vendors@.len() > 0,
    ensures
        r@.len() == vendors@.len(),
        r@[0] == 0,
{
    reveal(Seq::filter);
    assert(r@[0] == vendor_index(vendors@, 0));
    assert(vendors@.take(0) == Seq::<GPUVendor>::empty());
}

proof fn lemma_count_between(vendors: Seq<GPUVendor>, vendor: GPUVendor, i: int, j: int)
    requires
        0 <= i <= j <= vendors.len(),
        forall|k: int| i <= k < j ==> (#[trigger] vendors[k]) != vendor,
    ensures
        count_of(vendors.take(j), vendor) == count_of(vendors.take(i), vendor),
    decreases j - i,
{
    if i < j {
        lemma_count_between(vendors, vendor, i, j - 1);
        assert(vendors.take(j) == vendors.take(j - 1).push(vendors[j - 1]));
        lemma_count_push(vendors.take(j - 1), vendors[j - 1], vendor);
    }
}

proof fn lemma_opened<S>(gpus: Seq<Result<GPUSensor<S>, SensorError>>, j: int)
    ensures
        opened(gpus).len() == gpus.filter(|g: Result<GPUSensor<S>, SensorError>| g is Ok).len(),
        0 <= j < gpus.len() && gpus[j] is Ok ==> {
            let i = gpus.take(j).filter(
                |g: Result<GPUSensor<S>, SensorError>| g is Ok,
            ).len() as int;
            i < opened(gpus).len() && opened(gpus)[i] == SensorType::GPU(gpus[j]->Ok_0)
        },
    decreases gpus.len(),
{
    reveal(Seq::filter);
    if gpus.len() > 0 {
        let front = gpus.drop_last();
        lemma_opened(front, j);
        if j == gpus.len() - 1 {
            assert(gpus.take(j) == front);
        } else if 0 <= j < gpus.len() {
            assert(front.take(j) == gpus.take(j));
        }
    }
}

/// The sensors of a node are those that could be opened, in a fixed order: the
/// processor, every GPU in its turn, and then memory, disk and network, which are
/// always there.
pub proof fn law_sensors_stand_in_order<S>(
    cpu: Result<S, SensorError>,
    gpus: Vec<Result<GPUSensor<S>, SensorError>>,
    ram: S,
    disk: S,
    network: S,
    r: Vec<SensorType<S>>,
    j: int,
)
    requires
        call_ensures(assemble_sensors::<S>, (cpu, gpus, ram, disk, network), r),
    ensures
        ({
            let first: int = if cpu is Ok {
                1
            } else {
                0
            };
            let n = gpus@.filter(|g: Result<GPUSensor<S>, SensorError>| g is Ok).len() as int;
            &&& r@.len() == first + n + 3
            &&& cpu matches Ok(s) ==> r@[0] == SensorType::CPU(s)
            &&& r@[first + n] == SensorType::RAM(ram)
            &&& r@[first + n + 1] == SensorType::Disk(disk)
            &&& r@[first + n + 2] == SensorType::Network(network)
            &&& 0 <= j < gpus@.len() && gpus@[j] is Ok ==> r@[first + gpus@.take(j).filter(
                |g: Result<GPUSensor<S>, SensorError>| g is Ok,
            ).len()] == SensorType::GPU(gpus@[j]->Ok_0)
        }),
{
    lemma_opened(gpus@, j);
}

/// The steps of initialization, one by one. Tables come first, and if they cannot
/// be made the node does not start, for the reason that was given. Then the
/// hardware is described, saved if there is a database, published if there is a
/// broker, and the node is ready; none of these can fail it.
pub proof fn law_initialization_goes_step_by_step(
    init: Initialization,
    outcome: Result<(), String>,
    next: InitPhase,
)
    requires
        init.moves_on(outcome, next),
    ensures
        init.phase is Tables && outcome is Ok ==> next is Gathering,
        init.phase is Tables && outcome is Err ==> (next matches InitPhase::Refused(m) && m@
            == "Failed to create database tables: "@ + outcome->Err_0@),
        init.phase is Gathering && init.has_database ==> next is Saving,
        init.phase is Gathering && !init.has_database && init.node_id is Some ==> next is Publishing,
        init.phase is Gathering && !init.has_database && init.node_id is None ==> next is Ready,
        init.phase is Saving && init.node_id is Some ==> next is Publishing,
        init.phase is Saving && init.node_id is None ==> next is Ready,
        init.phase is Publishing || init.phase is Ready ==> next is Ready,
        init.phase is Refused ==> next == init.phase,
{
}

/// Each step asks for its own action; the description goes to the topic of the
/// node's hardware, and the outcome is an error only where the node was refused,
/// with the reason of that.
pub proof fn law_every_step_asks_for_its_action(init: Initialization, action: InitAction)
    requires
        init.well_formed(),
        call_ensures(Initialization::action, (&init,), action),
    ensures
        init.phase is Tables <==> action is CreateTables,
        init.phase is Gathering <==> action is GatherHardware,
        init.phase is Saving <==> action is SaveHardware,
        init.phase is Publishing <==> action is PublishHardware,
        action matches InitAction::PublishHardware(topic) ==> init.node_id is Some && topic@
            == init.node_id->0@ + "/hardware_info"@,
        init.phase is Ready ==> action matches InitAction::Finish(Ok(_)),
        init.phase matches InitPhase::Refused(m) ==> (action matches InitAction::Finish(Err(e)) && e == m),
{
}

/// Initialization starts with the tables if there is a database, and with the
/// description of the hardware if there is none.
pub proof fn law_initialization_starts_with_the_tables(
    has_database: bool,
    node_id: Option<String>,
    r: Initialization,
)
    requires
        call_ensures(Initialization::start, (has_database, node_id), r),
    ensures
        r.has_database == has_database,
        r.node_id == node_id,
        r.phase is Tables <==> has_database,
        r.phase is Gathering <==> !has_database,
{
}

/// Taking note of an outcome moves initialization on by one step, and changes
/// nothing else of it.
pub proof fn law_outcomes_move_initialization_on(init: &mut Initialization, outcome: Result<(), String>)
    requires
        old(init).well_formed(),
        call_ensures(Initialization::advance, (init, outcome), ()),
    ensures
        final(init).has_database == old(init).has_database,
        final(init).node_id == old(init).node_id,
        old(init).phase is Tables ==> (final(init).phase is Gathering <==> outcome is Ok),
        old(init).phase is Tables && outcome is Err ==> final(init).phase is Refused,
        old(init).phase is Gathering ==> (final(init).phase is Saving <==> old(init).has_database),
        old(init).phase is Saving || old(init).phase is Gathering && !old(init).has_database ==> (
        final(init).phase is Publishing <==> old(init).node_id is Some),
        old(init).phase is Saving || old(init).phase is Gathering && !old(init).has_database ==> (
        final(init).phase is Ready <==> old(init).node_id is None),
        old(init).phase is Publishing ==> final(init).phase is Ready,
        old(init).phase is Ready ==> final(init).phase is Ready,
        old(init).phase is Refused ==> final(init).phase == old(init).phase,
{
}

} // verus!
