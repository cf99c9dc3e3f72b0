//! The hardware description of a node.

use crate::sensor::{Float32, Sensor, SensorError, SensorType};
use crate::text::{concat3, decimal, decimal_text, join, joined};
use vstd::prelude::*;

verus! {

/// The operating system and the name of the machine.
#[derive(Debug)]
pub struct SystemInfo {
    pub os: String,
    pub hostname: String,
    pub is_virtual_machine: bool,
}

/// The processor.
#[derive(Debug)]
pub struct CpuInfo {
    pub name: String,
}

/// What is known of a node once its parts have been put together.
#[derive(Debug)]
pub struct HardwareInfo {
    pub system: SystemInfo,
    pub cpu: CpuInfo,
}

/// A screen.
#[derive(Debug)]
pub struct ScreenInfo {
    pub model: String,
    pub resolution: String,
    pub refresh_rate_hz: u32,
    pub is_primary: bool,
}

/// The battery, if there is one.
#[derive(Debug)]
pub struct BatteryInfo {
    pub present: bool,
    pub name: Option<String>,
    pub design_capacity_wh: Option<Float32>,
    pub full_charge_capacity_wh: Option<Float32>,
    pub cycle_count: Option<u32>,
}

/// One part of the description; a device is described by its specs.
#[derive(Debug)]
pub enum InitialInfo<D> {
    Device(D),
    System(SystemInfo),
    Displays(Vec<ScreenInfo>),
    Battery(BatteryInfo),
}

/// The description with the names of the tables that readings are kept in.
#[derive(Debug)]
pub struct GeneralData<D> {
    pub tables: String,
    pub hardware_info: Vec<InitialInfo<D>>,
}

/// A screen as the platform shows it.
#[derive(Debug)]
pub struct DisplayFacts {
    pub friendly_name: String,
    pub width: u32,
    pub height: u32,
    pub frequency_hz: u32,
    pub is_primary: bool,
}

/// A battery as the platform shows it.
#[derive(Debug)]
pub struct BatteryFacts {
    pub vendor: Option<String>,
    pub energy_full_design_wh: Float32,
    pub energy_full_wh: Float32,
    pub cycle_count: Option<u32>,
}

/// What came of asking the platform for its first battery.
#[derive(Debug)]
pub enum BatteryAnswer {
    /// The batteries could not be listed.
    Unlisted,
    /// There is no battery.
    Absent,
    /// There is one, but it could not be read.
    Unreadable,
    /// The battery.
    Read(BatteryFacts),
}

/// What the platform tells of itself. There are no `displays` if they could
/// not be listed.
#[derive(Debug)]
pub struct PlatformFacts {
    pub os_name: Option<String>,
    pub os_version: Option<String>,
    pub host_name: Option<String>,
    pub displays: Option<Vec<DisplayFacts>>,
    pub battery: BatteryAnswer,
}

impl PlatformFacts {
    /// The displays that are described: none if they could not be listed.
    pub open spec fn screens(self) -> Seq<DisplayFacts> {
        match self.displays {
            Some(list) => list@,
            None => Seq::empty(),
        }
    }
}

/// A text that may be missing; then it is empty.
pub open spec fn or_empty(s: Option<String>) -> Seq<char> {
    match s {
        Some(t) => t@,
        None => Seq::empty(),
    }
}

impl SystemInfo {
    /// The system is described as the platform shows it.
    pub open spec fn describes(self, facts: PlatformFacts) -> bool {
        &&& self.os@ == or_empty(facts.os_name) + " "@ + or_empty(facts.os_version)
        &&& self.hostname@ == or_empty(facts.host_name)
        &&& !self.is_virtual_machine
    }
}

impl ScreenInfo {
    /// The screen is described as the platform shows it.
    pub open spec fn describes(self, facts: DisplayFacts) -> bool {
        &&& self.model == facts.friendly_name
        &&& self.resolution@ == decimal(facts.width as nat) + "x"@ + decimal(facts.height as nat)
        &&& self.refresh_rate_hz == facts.frequency_hz
        &&& self.is_primary == facts.is_primary
    }
}

/// The battery as it is described: present only if it could be read.
pub open spec fn battery_info(answer: BatteryAnswer) -> BatteryInfo {
    match answer {
        BatteryAnswer::Read(b) => BatteryInfo {
            present: true,
            name: b.vendor,
            design_capacity_wh: Some(b.energy_full_design_wh),
            full_charge_capacity_wh: Some(b.energy_full_wh),
            cycle_count: b.cycle_count,
        },
        _ => BatteryInfo {
            present: false,
            name: None,
            design_capacity_wh: None,
            full_charge_capacity_wh: None,
            cycle_count: None,
        },
    }
}

/// The sensors that gave their specs, in order.
pub open spec fn device_parts<D>(answers: Seq<Result<D, SensorError>>) -> Seq<InitialInfo<D>>
    decreases answers.len(),
{
    if answers.len() == 0 {
        Seq::empty()
    } else {
        match answers.last() {
            Ok(specs) => device_parts(answers.drop_last()).push(InitialInfo::Device(specs)),
            Err(_) => device_parts(answers.drop_last()),
        }
    }
}

/// The description has a part for each sensor that gave its specs, then the
/// system, the screens and the battery.
pub open spec fn describes_node<D>(
    parts: Seq<InitialInfo<D>>,
    answers: Seq<Result<D, SensorError>>,
    facts: PlatformFacts,
) -> bool {
    let n = device_parts(answers).len() as int;
    &&& parts.len() == n + 3
    &&& parts.take(n) == device_parts(answers)
    &&& parts[n] matches InitialInfo::System(s)
    &&& s.describes(facts)
    &&& parts[n + 1] matches InitialInfo::Displays(screens)
    &&& screens@.len() == facts.screens().len()
    &&& forall|i: int| 0 <= i < screens@.len() ==> (#[trigger] screens@[i]).describes(facts.screens()[i])
    &&& parts[n + 2] == InitialInfo::<D>::Battery(battery_info(facts.battery))
}

fn or_default(s: &Option<String>) -> (r: String)
    ensures
        r@ == or_empty(*s),
{
    match s {
        Some(t) => t.clone(),
        None => String::new(),
    }
}

fn describe_screens(displays: Vec<DisplayFacts>) -> (r: Vec<ScreenInfo>)
    ensures
        r@.len() == displays@.len(),
        forall|i: int| 0 <= i < r@.len() ==> (#[trigger] r@[i]).describes(displays@[i]),
{
    let ghost all = displays@;
    let mut r: Vec<ScreenInfo> = Vec::new();
    for display in it: displays
        invariant
            it.seq() == all,
            r@.len() == it.index(),
            forall|i: int| 0 <= i < r@.len() ==> (#[trigger] r@[i]).describes(all[i]),
    {
        let width = decimal_text(display.width as u64);
        let height = decimal_text(display.height as u64);
        let resolution = concat3(width.as_str(), "x", height.as_str());
        r.push(
            ScreenInfo {
                model: display.friendly_name,
                resolution,
                refresh_rate_hz: display.frequency_hz,
                is_primary: display.is_primary,
            },
        );
    }
    r
}

/// Puts the description together from what each sensor answered and what the
/// platform tells. A sensor without specs has no part in it.
pub fn describe_hardware<D>(
    answers: Vec<Result<D, SensorError>>,
    table_names: &Vec<String>,
    facts: PlatformFacts,
) -> (r: GeneralData<D>)
    ensures
        r.tables@ == joined(table_names@, ","@),
        describes_node(r.hardware_info@, answers@, facts),
{
    let ghost all = answers@;
    let mut parts: Vec<InitialInfo<D>> = Vec::new();
    assert(all.take(0) == Seq::<Result<D, SensorError>>::empty());
    for answer in it: answers
        invariant
            it.seq() == all,
            parts@ == device_parts(all.take(it.index())),
    {
        proof {
            assert(all.take(it.index() + 1).drop_last() == all.take(it.index()));
            assert(all.take(it.index() + 1).last() == answer);
        }
        match answer {
            Ok(specs) => parts.push(InitialInfo::Device(specs)),
            Err(_) => {},
        }
    }
    assert(all.take(all.len() as int) == all);
    let ghost devices = parts@;

    let name = or_default(&facts.os_name);
    let version = or_default(&facts.os_version);
    let os = concat3(name.as_str(), " ", version.as_str());
    let hostname = or_default(&facts.host_name);
    parts.push(InitialInfo::System(SystemInfo { os, hostname, is_virtual_machine: false }));

    let PlatformFacts { displays, battery, .. } = facts;
    let screens = match displays {
        Some(list) => describe_screens(list),
        None => Vec::new(),
    };
    parts.push(InitialInfo::Displays(screens));

    let battery = match battery {
        BatteryAnswer::Read(b) => BatteryInfo {
            present: true,
            name: b.vendor,
            design_capacity_wh: Some(b.energy_full_design_wh),
            full_charge_capacity_wh: Some(b.energy_full_wh),
            cycle_count: b.cycle_count,
        },
        _ => BatteryInfo {
            present: false,
            name: None,
            design_capacity_wh: None,
            full_charge_capacity_wh: None,
            cycle_count: None,
        },
    };
    parts.push(InitialInfo::Battery(battery));
    assert(parts@.take(devices.len() as int) =~= devices);
    let tables = join(table_names, ",");
    GeneralData { tables, hardware_info: parts }
}

/// The answers are what the sensors said of their specs.
pub open spec fn specs_from<S: Sensor>(
    sensors: Seq<SensorType<S>>,
    answers: Seq<Result<S::Specs, SensorError>>,
) -> bool {
    &&& answers.len() == sensors.len()
    &&& forall|i: int|
        #![trigger answers[i]]
        0 <= i < answers.len() ==> {
            &&& sensors[i] is Network ==> answers[i] == Err::<S::Specs, SensorError>(
                SensorError::NotSupported,
            )
            &&& sensors[i] !is Network ==> call_ensures(
                S::read_initial_info,
                (&sensors[i].device(),),
                answers[i],
            )
        }
}

/// Collects the specs of all sensors and describes the node.
pub fn get_hardware_info<S: Sensor>(
    sensors: &Vec<SensorType<S>>,
    table_names: &Vec<String>,
    facts: PlatformFacts,
) -> (r: GeneralData<S::Specs>)
    ensures
        r.tables@ == joined(table_names@, ","@),
        exists|answers: Seq<Result<S::Specs, SensorError>>|
            #[trigger] specs_from(sensors@, answers) && describes_node(
                r.hardware_info@,
                answers,
                facts,
            ),
{
    let mut answers: Vec<Result<S::Specs, SensorError>> = Vec::new();
    for i in 0..sensors.len()
        invariant
            specs_from(sensors@.take(i as int), answers@),
    {
        let answer = sensors[i].read_initial_info();
        let ghost before = answers@;
        answers.push(answer);
        proof {
            let some = sensors@.take(i + 1);
            assert forall|j: int| #![trigger answers@[j]] 0 <= j < answers@.len() implies {
                &&& some[j] is Network ==> answers@[j] == Err::<S::Specs, SensorError>(
                    SensorError::NotSupported,
                )
                &&& some[j] !is Network ==> call_ensures(
                    S::read_initial_info,
                    (&some[j].device(),),
                    answers@[j],
                )
            } by {
                if j < i {
                    assert(answers@[j] == before[j]);
                    assert(some[j] == sensors@.take(i as int)[j]);
                }
            }
        }
    }
    assert(sensors@.take(sensors@.len() as int) == sensors@);
    let ghost seen = answers@;
    assert(specs_from(sensors@, seen));
    describe_hardware(answers, table_names, facts)
}

/// The tables that readings are kept in: one for each sensor, then that of the
/// processes and that of the totals.
pub fn table_names(sensor_tables: Vec<String>, process_table: String, total_table: String) -> (r: Vec<String>)
    ensures
        r@ == sensor_tables@.push(process_table).push(total_table),
{
    let mut r = sensor_tables;
    r.push(process_table);
    r.push(total_table);
    r
}

proof fn lemma_device_parts<D>(answers: Seq<Result<D, SensorError>>, j: int)
    requires
        0 <= j < answers.len(),
        answers[j] is Ok,
    ensures
        answers.take(j).filter(|a: Result<D, SensorError>| a is Ok).len() < device_parts(answers).len(),
        device_parts(answers)[answers.take(j).filter(
            |a: Result<D, SensorError>| a is Ok,
        ).len() as int] == InitialInfo::Device(answers[j]->Ok_0),
    decreases answers.len(),
{
    reveal(Seq::filter);
    let front = answers.drop_last();
    lemma_device_count(front);
    if j == answers.len() - 1 {
        assert(answers.take(j) == front);
    } else {
        lemma_device_parts(front, j);
        assert(front.take(j) == answers.take(j));
    }
}

proof fn lemma_device_count<D>(answers: Seq<Result<D, SensorError>>)
    ensures
        device_parts(answers).len() == answers.filter(|a: Result<D, SensorError>| a is Ok).len(),
    decreases answers.len(),
{
    reveal(Seq::filter);
    if answers.len() > 0 {
        lemma_device_count(answers.drop_last());
    }
}

/// Every sensor that gave its specs has a part of its own in the description of
/// a node, in the order of the sensors, and no other device has one. The system,
/// the displays and the battery follow, in that order.
pub proof fn law_every_device_is_described<D>(
    parts: Seq<InitialInfo<D>>,
    answers: Seq<Result<D, SensorError>>,
    facts: PlatformFacts,
    j: int,
)
    requires
        describes_node(parts, answers, facts),
    ensures
        ({
            let n = answers.filter(|a: Result<D, SensorError>| a is Ok).len() as int;
            &&& parts.len() == n + 3
            &&& 0 <= j < n ==> parts[j] is Device
            &&& parts[n] is System
            &&& parts[n + 1] is Displays
            &&& parts[n + 2] is Battery
            &&& 0 <= j < answers.len() && answers[j] is Ok ==> {
                let i = answers.take(j).filter(|a: Result<D, SensorError>| a is Ok).len() as int;
                i < n && parts[i] == InitialInfo::Device(answers[j]->Ok_0)
            }
        }),
{
    let n = device_parts(answers).len() as int;
    lemma_device_count(answers);
    if 0 <= j < n {
        lemma_parts_are_devices(answers, j);
        assert(parts.take(n)[j] == parts[j]);
    }
    if 0 <= j < answers.len() && answers[j] is Ok {
        lemma_device_parts(answers, j);
        let i = answers.take(j).filter(|a: Result<D, SensorError>| a is Ok).len() as int;
        assert(parts.take(n)[i] == parts[i]);
    }
}

proof fn lemma_parts_are_devices<D>(answers: Seq<Result<D, SensorError>>, i: int)
    requires
        0 <= i < device_parts(answers).len(),
    ensures
        device_parts(answers)[i] is Device,
    decreases answers.len(),
{
    let front = answers.drop_last();
    if i < device_parts(front).len() {
        lemma_parts_are_devices(front, i);
    }
}

/// The system is described as the platform shows it: its name, a space and its
/// version, each empty where it is missing; and the name of the machine. No node
/// is taken for a virtual machine.
pub proof fn law_the_system_is_described<D>(
    parts: Seq<InitialInfo<D>>,
    answers: Seq<Result<D, SensorError>>,
    facts: PlatformFacts,
)
    requires
        describes_node(parts, answers, facts),
    ensures
        parts[parts.len() - 3] matches InitialInfo::System(s) && {
            &&& facts.os_name is Some && facts.os_version is Some ==> s.os@ == facts.os_name->0@ + " "@
                + facts.os_version->0@
            &&& facts.os_name is Some && facts.os_version is None ==> s.os@ == facts.os_name->0@ + " "@
            &&& facts.os_name is None && facts.os_version is Some ==> s.os@ == " "@ + facts.os_version->0@
            &&& facts.os_name is None && facts.os_version is None ==> s.os@ == " "@
            &&& facts.host_name matches Some(h) ==> s.hostname@ == h@
            &&& facts.host_name is None ==> s.hostname@.len() == 0
            &&& !s.is_virtual_machine
        },
{
    let s = parts[parts.len() - 3]->System_0;
    assert(Seq::<char>::empty() + " "@ == " "@);
    assert(s.os@ + Seq::<char>::empty() == s.os@);
    if facts.os_version is None {
        assert(or_empty(facts.os_name) + " "@ + Seq::<char>::empty() == or_empty(facts.os_name) + " "@);
    }
}

/// Every display is described, in the order in which the platform lists them:
/// under its name, with width and height as its resolution, its refresh rate and
/// whether it is the main one. Displays that cannot be listed are none.
pub proof fn law_displays_are_described<D>(
    parts: Seq<InitialInfo<D>>,
    answers: Seq<Result<D, SensorError>>,
    facts: PlatformFacts,
    i: int,
)
    requires
        describes_node(parts, answers, facts),
    ensures
        parts[parts.len() - 2] matches InitialInfo::Displays(screens) && {
            &&& facts.displays is None ==> screens@.len() == 0
            &&& facts.displays matches Some(list) ==> screens@.len() == list@.len()
            &&& facts.displays matches Some(list) ==> (0 <= i < list@.len() ==> {
                &&& screens@[i].model@ == list@[i].friendly_name@
                &&& screens@[i].resolution@ == decimal(list@[i].width as nat) + "x"@ + decimal(
                    list@[i].height as nat,
                )
                &&& screens@[i].refresh_rate_hz == list@[i].frequency_hz
                &&& screens@[i].is_primary == list@[i].is_primary
            })
        },
{
    let screens = parts[parts.len() - 2]->Displays_0;
    if 0 <= i < screens@.len() {
        assert(screens@[i].describes(facts.screens()[i]));
    }
}

/// A battery that could be read is present, with what it told of itself; in any
/// other case none is, and nothing is told of it.
pub proof fn law_the_battery_is_described<D>(
    parts: Seq<InitialInfo<D>>,
    answers: Seq<Result<D, SensorError>>,
    facts: PlatformFacts,
)
    requires
        describes_node(parts, answers, facts),
    ensures
        parts[parts.len() - 1] matches InitialInfo::Battery(b) && {
            &&& b.present <==> facts.battery is Read
            &&& facts.battery matches BatteryAnswer::Read(f) ==> {
                &&& b.name == f.vendor
                &&& b.design_capacity_wh == Some(f.energy_full_design_wh)
                &&& b.full_charge_capacity_wh == Some(f.energy_full_wh)
                &&& b.cycle_count == f.cycle_count
            }
            &&& facts.battery !is Read ==> {
                &&& b.name is None
                &&& b.design_capacity_wh is None
                &&& b.full_charge_capacity_wh is None
                &&& b.cycle_count is None
            }
        },
{
}

/// What a node tells of its hardware comes from its sensors, each asked for its
/// specs, except that a network sensor has none to give. The tables are named in
/// their order, with commas between them.
pub proof fn law_hardware_comes_from_the_sensors<S: Sensor>(
    sensors: Vec<SensorType<S>>,
    tables: Vec<String>,
    facts: PlatformFacts,
    r: GeneralData<S::Specs>,
)
    requires
        call_ensures(get_hardware_info::<S>, (&sensors, &tables, facts), r),
    ensures
        r.tables@ == joined(tables@, ","@),
        exists|answers: Seq<Result<S::Specs, SensorError>>|
            {
                &&& #[trigger] describes_node(r.hardware_info@, answers, facts)
                &&& answers.len() == sensors@.len()
                &&& forall|j: int|
                    0 <= j < sensors@.len() ==> match #[trigger] sensors@[j] {
                        SensorType::CPU(s) => call_ensures(S::read_initial_info, (&s,), answers[j]),
                        SensorType::GPU(g) => call_ensures(
                            S::read_initial_info,
                            (&g.device,),
                            answers[j],
                        ),
                        SensorType::RAM(s) => call_ensures(S::read_initial_info, (&s,), answers[j]),
                        SensorType::Disk(s) => call_ensures(S::read_initial_info, (&s,), answers[j]),
                        SensorType::Network(_) => answers[j] is Err,
                    }
            },
{
    let answers = choose|answers: Seq<Result<S::Specs, SensorError>>|
        #[trigger] specs_from(sensors@, answers) && describes_node(r.hardware_info@, answers, facts);
    assert(describes_node(r.hardware_info@, answers, facts));
    assert forall|j: int| 0 <= j < sensors@.len() implies match #[trigger] sensors@[j] {
        SensorType::CPU(s) => call_ensures(S::read_initial_info, (&s,), answers[j]),
        SensorType::GPU(g) => call_ensures(S::read_initial_info, (&g.device,), answers[j]),
        SensorType::RAM(s) => call_ensures(S::read_initial_info, (&s,), answers[j]),
        SensorType::Disk(s) => call_ensures(S::read_initial_info, (&s,), answers[j]),
        SensorType::Network(_) => answers[j] is Err,
    } by {
        let answer = answers[j];
    }
}

/// A description that is put together by hand has the same parts and tables.
pub proof fn law_descriptions_hold_all_parts<D>(
    answers: Vec<Result<D, SensorError>>,
    tables: Vec<String>,
    facts: PlatformFacts,
    r: GeneralData<D>,
    j: int,
)
    requires
        call_ensures(describe_hardware::<D>, (answers, &tables, facts), r),
        0 <= j < answers@.len(),
        answers@[j] is Ok,
    ensures
        r.tables@ == joined(tables@, ","@),
        describes_node(r.hardware_info@, answers@, facts),
        r.hardware_info@[answers@.take(j).filter(
            |a: Result<D, SensorError>| a is Ok,
        ).len() as int] == InitialInfo::Device(answers@[j]->Ok_0),
        r.hardware_info@.len() == answers@.filter(|a: Result<D, SensorError>| a is Ok).len() + 3,
{
    law_every_device_is_described(r.hardware_info@, answers@, facts, j);
}

/// Readings are kept in a table for each sensor, in the order of the sensors; the
/// table of processes and that of totals come last.
pub proof fn law_tables_of_processes_and_totals_come_last(
    sensor_tables: Vec<String>,
    process_table: String,
    total_table: String,
    r: Vec<String>,
    i: int,
)
    requires
        call_ensures(table_names, (sensor_tables, process_table, total_table), r),
    ensures
        r@.len() == sensor_tables@.len() + 2,
        0 <= i < sensor_tables@.len() ==> r@[i] == sensor_tables@[i],
        r@[r@.len() - 2] == process_table,
        r@[r@.len() - 1] == total_table,
{
}

} // verus!
