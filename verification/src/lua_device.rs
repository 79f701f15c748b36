//! Devices and statuses as scripts see them.

use vstd::prelude::*;
use vstd::string::*;

use crate::device::{DynLocation, NamedObj, PausableObj};
use crate::documents::{DataKey, DataKeyView, Dtype};
use crate::error::{error_text, CirrusError};
use crate::lua_value::{
    json_out, json_to_lua, out_fields, out_fields_view, out_view, readings_out, readings_table,
    LuaOut, OutView,
};
use crate::msg::{bool_text, debug_str, show_bool, str_debug, ObjRef};
use crate::reading::ReadingValue;
use crate::status::{
    status_error_text, status_table, Status, StatusError, StatusOutcome, StatusView,
};
use crate::strmap::StrMap;
use crate::text::{join2, join3, join_all, joined, texts};
use crate::value::{object2, text_json, Double, Json, JsonView};

verus! {

/// A role that a device can play.
#[derive(Copy, Clone, Debug, PartialEq, Eq, Structural)]
pub enum Role {
    /// Can be read.
    Readable,
    /// Can be moved.
    Movable,
    /// Can be located.
    Locatable,
    /// Can be stopped.
    Stoppable,
    /// Can be triggered.
    Triggerable,
    /// Can be staged.
    Stageable,
    /// Can be monitored.
    Monitorable,
    /// Can be flown.
    Flyable,
    /// Can be prepared.
    Preparable,
    /// Can be configured.
    Configurable,
    /// Can be collected.
    Collectable,
    /// Can be paused.
    Pausable,
}

/// The name of a role.
pub open spec fn role_name(r: Role) -> Seq<char> {
    match r {
        Role::Readable => "readable"@,
        Role::Movable => "movable"@,
        Role::Locatable => "locatable"@,
        Role::Stoppable => "stoppable"@,
        Role::Triggerable => "triggerable"@,
        Role::Stageable => "stageable"@,
        Role::Monitorable => "monitorable"@,
        Role::Flyable => "flyable"@,
        Role::Preparable => "preparable"@,
        Role::Configurable => "configurable"@,
        Role::Collectable => "collectable"@,
        Role::Pausable => "pausable"@,
    }
}

impl Role {
    /// The name of the role.
    pub fn name(self) -> (s: &'static str)
        ensures
            s@ == role_name(self),
    {
        match self {
            Role::Readable => "readable",
            Role::Movable => "movable",
            Role::Locatable => "locatable",
            Role::Stoppable => "stoppable",
            Role::Triggerable => "triggerable",
            Role::Stageable => "stageable",
            Role::Monitorable => "monitorable",
            Role::Flyable => "flyable",
            Role::Preparable => "preparable",
            Role::Configurable => "configurable",
            Role::Collectable => "collectable",
            Role::Pausable => "pausable",
        }
    }
}

/// A device as scripts hold it: its name, and the object that plays each of its roles.
#[derive(Debug)]
pub struct LuaDevice {
    /// The name.
    pub name: String,
    /// Plays `readable`.
    pub readable: Option<ObjRef>,
    /// Plays `movable`.
    pub movable: Option<ObjRef>,
    /// Plays `locatable`.
    pub locatable: Option<ObjRef>,
    /// Plays `stoppable`.
    pub stoppable: Option<ObjRef>,
    /// Plays `triggerable`.
    pub triggerable: Option<ObjRef>,
    /// Plays `stageable`.
    pub stageable: Option<ObjRef>,
    /// Plays `monitorable`.
    pub monitorable: Option<ObjRef>,
    /// Plays `flyable`.
    pub flyable: Option<ObjRef>,
    /// Plays `preparable`.
    pub preparable: Option<ObjRef>,
    /// Plays `configurable`.
    pub configurable: Option<ObjRef>,
    /// Plays `collectable`.
    pub collectable: Option<ObjRef>,
    /// Plays `pausable`.
    pub pausable: Option<ObjRef>,
}

/// The object that plays a role.
pub open spec fn player(d: LuaDevice, r: Role) -> Option<ObjRef> {
    match r {
        Role::Readable => d.readable,
        Role::Movable => d.movable,
        Role::Locatable => d.locatable,
        Role::Stoppable => d.stoppable,
        Role::Triggerable => d.triggerable,
        Role::Stageable => d.stageable,
        Role::Monitorable => d.monitorable,
        Role::Flyable => d.flyable,
        Role::Preparable => d.preparable,
        Role::Configurable => d.configurable,
        Role::Collectable => d.collectable,
        Role::Pausable => d.pausable,
    }
}

/// Whether a device plays no role.
pub open spec fn plays_nothing(d: LuaDevice) -> bool {
    &&& d.readable is None
    &&& d.movable is None
    &&& d.locatable is None
    &&& d.stoppable is None
    &&& d.triggerable is None
    &&& d.stageable is None
    &&& d.monitorable is None
    &&& d.flyable is None
    &&& d.preparable is None
    &&& d.configurable is None
    &&& d.collectable is None
    &&& d.pausable is None
}

/// What a script is told when a device does not play a role.
pub open spec fn not_playing(d: LuaDevice, r: Role) -> Seq<char> {
    d.name@ + " is not "@ + role_name(r)
}

/// Whether `r` is the object that plays a role, or what a script is told where none does.
pub open spec fn needs(d: LuaDevice, role: Role, r: Result<ObjRef, String>) -> bool {
    match player(d, role) {
        Some(o) => r == Ok::<ObjRef, String>(o),
        None => r matches Err(e) && e@ == not_playing(d, role),
    }
}

/// Copies a reference that may be missing.
fn again(o: &Option<ObjRef>) -> (c: Option<ObjRef>)
    ensures
        c == *o,
{
    match o {
        Some(o) => Some(o.again()),
        None => None,
    }
}

impl LuaDevice {
    /// A device that plays no role.
    pub fn bare(name: &str) -> (d: Self)
        ensures
            d.name@ == name@,
            plays_nothing(d),
    {
        LuaDevice {
            name: name.to_owned(),
            readable: None,
            movable: None,
            locatable: None,
            stoppable: None,
            triggerable: None,
            stageable: None,
            monitorable: None,
            flyable: None,
            preparable: None,
            configurable: None,
            collectable: None,
            pausable: None,
        }
    }

    /// A detector: it can be read.
    pub fn detector(name: &str, obj: ObjRef) -> (d: Self)
        ensures
            d.name@ == name@,
            forall|r: Role| #[trigger]
                player(d, r) == if r == Role::Readable {
                    Some(obj)
                } else {
                    None
                },
    {
        LuaDevice { readable: Some(obj), ..LuaDevice::bare(name) }
    }

    /// A motor: it can be read, moved, located and stopped.
    pub fn motor(name: &str, obj: ObjRef) -> (d: Self)
        ensures
            d.name@ == name@,
            forall|r: Role| #[trigger]
                player(d, r) == if r == Role::Readable || r == Role::Movable || r == Role::Locatable
                    || r == Role::Stoppable {
                    Some(obj)
                } else {
                    None
                },
    {
        LuaDevice {
            readable: Some(obj.again()),
            movable: Some(obj.again()),
            locatable: Some(obj.again()),
            stoppable: Some(obj),
            ..LuaDevice::bare(name)
        }
    }

    /// A device that counts pauses: it can be paused.
    pub fn pausable(name: &str, obj: ObjRef) -> (d: Self)
        ensures
            d.name@ == name@,
            forall|r: Role| #[trigger]
                player(d, r) == if r == Role::Pausable {
                    Some(obj)
                } else {
                    None
                },
    {
        LuaDevice { pausable: Some(obj), ..LuaDevice::bare(name) }
    }

    /// The object that plays a role.
    pub fn plays(&self, role: Role) -> (o: Option<ObjRef>)
        ensures
            o == player(*self, role),
    {
        match role {
            Role::Readable => again(&self.readable),
            Role::Movable => again(&self.movable),
            Role::Locatable => again(&self.locatable),
            Role::Stoppable => again(&self.stoppable),
            Role::Triggerable => again(&self.triggerable),
            Role::Stageable => again(&self.stageable),
            Role::Monitorable => again(&self.monitorable),
            Role::Flyable => again(&self.flyable),
            Role::Preparable => again(&self.preparable),
            Role::Configurable => again(&self.configurable),
            Role::Collectable => again(&self.collectable),
            Role::Pausable => again(&self.pausable),
        }
    }

    /// The object that plays a role, or what the script is told where none does.
    pub fn need(&self, role: Role) -> (r: Result<ObjRef, String>)
        ensures
            needs(*self, role, r),
    {
        match self.plays(role) {
            Some(o) => Ok(o),
            None => Err(join3(&self.name, " is not ", role.name())),
        }
    }

    /// The object that is asked to tell of itself, if there is one.
    pub fn teller(&self) -> (o: Option<ObjRef>)
        ensures
            o == first_player(*self, tellers()),
    {
        let order = [
            Role::Readable,
            Role::Movable,
            Role::Locatable,
            Role::Triggerable,
            Role::Stageable,
            Role::Stoppable,
            Role::Monitorable,
            Role::Flyable,
            Role::Collectable,
            Role::Pausable,
        ];
        assert(order@ =~= tellers());
        let mut i: usize = 0;
        assert(tellers().skip(0) =~= tellers());
        while i < 10
            invariant
                i <= 10,
                order@ == tellers(),
                tellers().len() == 10,
                first_player(*self, tellers()) == first_player(*self, tellers().skip(i as int)),
            decreases 10 - i,
        {
            let ghost rest = tellers().skip(i as int);
            assert(rest[0] == order@[i as int]);
            assert(rest.skip(1) =~= tellers().skip(i + 1));
            let o = self.plays(order[i]);
            if o.is_some() {
                return o;
            }
            i += 1;
        }
        None
    }

    /// What is told of a device that plays none of the roles that tell of it.
    pub fn untold(&self) -> (j: Json)
        ensures
            j.deep_view() == JsonView::Object(
                seq![("name"@, JsonView::Str(self.name@)), ("type"@, JsonView::Str("Unknown"@))],
            ),
    {
        object2("name", text_json(&self.name), "type", text_json("Unknown"))
    }

    /// How the device is shown: its name and its roles.
    pub fn shown(&self) -> (s: String)
        ensures
            s@ == "Device("@ + self.name@ + ", ["@ + joined(played(*self, showers()), ","@)
                + "])"@,
    {
        let order = [
            Role::Readable,
            Role::Movable,
            Role::Locatable,
            Role::Stoppable,
            Role::Triggerable,
            Role::Stageable,
            Role::Monitorable,
            Role::Flyable,
        ];
        assert(order@ =~= showers());
        let mut roles: Vec<String> = Vec::new();
        let mut i: usize = 0;
        assert(showers().take(0) =~= seq![]);
        assert(texts(roles@) =~= seq![]);
        while i < 8
            invariant
                i <= 8,
                order@ == showers(),
                showers().len() == 8,
                texts(roles@) == played(*self, showers().take(i as int)),
            decreases 8 - i,
        {
            let ghost next = showers().take(i + 1);
            assert(next.drop_last() =~= showers().take(i as int));
            assert(next.last() == order@[i as int]);
            let ghost before = texts(roles@);
            if self.plays(order[i]).is_some() {
                roles.push(order[i].name().to_owned());
                assert(texts(roles@) =~= before.push(role_name(order@[i as int])));
            }
            i += 1;
        }
        assert(showers().take(8) =~= showers());
        join3(
            &join3("Device(", &self.name, ", ["),
            &join_all(&roles, ","),
            "])",
        )
    }
}

/// The roles that tell of a device, the first of them first.
pub open spec fn tellers() -> Seq<Role> {
    seq![
        Role::Readable,
        Role::Movable,
        Role::Locatable,
        Role::Triggerable,
        Role::Stageable,
        Role::Stoppable,
        Role::Monitorable,
        Role::Flyable,
        Role::Collectable,
        Role::Pausable,
    ]
}

/// The roles that are shown.
pub open spec fn showers() -> Seq<Role> {
    seq![
        Role::Readable,
        Role::Movable,
        Role::Locatable,
        Role::Stoppable,
        Role::Triggerable,
        Role::Stageable,
        Role::Monitorable,
        Role::Flyable,
    ]
}

/// The object that plays the first of the roles that is played.
pub open spec fn first_player(d: LuaDevice, roles: Seq<Role>) -> Option<ObjRef>
    decreases roles.len(),
{
    if roles.len() == 0 {
        None
    } else if player(d, roles[0]) is Some {
        player(d, roles[0])
    } else {
        first_player(d, roles.skip(1))
    }
}

/// The names of those of the roles that are played.
pub open spec fn played(d: LuaDevice, roles: Seq<Role>) -> Seq<Seq<char>>
    decreases roles.len(),
{
    if roles.len() == 0 {
        seq![]
    } else {
        let before = played(d, roles.drop_last());
        if player(d, roles.last()) is Some {
            before.push(role_name(roles.last()))
        } else {
            before
        }
    }
}

/// What a script asks of a device.
#[derive(Debug)]
pub enum DeviceMethod {
    /// Where it is.
    Position,
    /// Where it was sent.
    Target,
    /// Both.
    Locate,
    /// Its readings.
    Read,
    /// Its description.
    Describe,
    /// Send it to a value, given also as it is shown.
    Send(Double, String),
    /// Send it to a value and wait.
    MoveTo(Double),
    /// Trigger it.
    Trigger,
    /// Stop it.
    Stop,
    /// Stop it in an emergency.
    StopEmergency,
    /// Stage it.
    Stage,
    /// Unstage it.
    Unstage,
    /// Kick it off.
    Kickoff,
    /// Complete it.
    Complete,
}

/// What is to be done with the object that plays the role.
#[derive(Debug)]
pub enum DeviceOp {
    /// Locate it.
    Locate,
    /// Read it.
    Read,
    /// Describe it.
    Describe,
    /// Move it, and hand out a status with this label.
    Send(Double, String),
    /// Move it and wait for the end.
    MoveTo(Double),
    /// Trigger it, and hand out a status with this label.
    Trigger(String),
    /// Stop it; `true` for a planned stop.
    Stop(bool),
    /// Stage it.
    Stage,
    /// Unstage it.
    Unstage,
    /// Kick it off, and hand out a status with this label.
    Kickoff(String),
    /// Complete it, and hand out a status with this label.
    Complete(String),
}

/// The role that a method needs.
pub open spec fn method_role(m: DeviceMethod) -> Role {
    match m {
        DeviceMethod::Position => Role::Locatable,
        DeviceMethod::Target => Role::Locatable,
        DeviceMethod::Locate => Role::Locatable,
        DeviceMethod::Read => Role::Readable,
        DeviceMethod::Describe => Role::Readable,
        DeviceMethod::Send(..) => Role::Movable,
        DeviceMethod::MoveTo(_) => Role::Movable,
        DeviceMethod::Trigger => Role::Triggerable,
        DeviceMethod::Stop => Role::Stoppable,
        DeviceMethod::StopEmergency => Role::Stoppable,
        DeviceMethod::Stage => Role::Stageable,
        DeviceMethod::Unstage => Role::Stageable,
        DeviceMethod::Kickoff => Role::Flyable,
        DeviceMethod::Complete => Role::Flyable,
    }
}

/// Whether `op` is what a method does with a device of the given name.
pub open spec fn method_does(m: DeviceMethod, name: Seq<char>, op: DeviceOp) -> bool {
    match m {
        DeviceMethod::Position => op is Locate,
        DeviceMethod::Target => op is Locate,
        DeviceMethod::Locate => op is Locate,
        DeviceMethod::Read => op is Read,
        DeviceMethod::Describe => op is Describe,
        DeviceMethod::Send(v, shown) => op matches DeviceOp::Send(w, label) && w == v && label@
            == "set("@ + name + "="@ + shown@ + ")"@,
        DeviceMethod::MoveTo(v) => op == DeviceOp::MoveTo(v),
        DeviceMethod::Trigger => op matches DeviceOp::Trigger(label) && label@ == "trigger("@ + name
            + ")"@,
        DeviceMethod::Stop => op == DeviceOp::Stop(true),
        DeviceMethod::StopEmergency => op == DeviceOp::Stop(false),
        DeviceMethod::Stage => op is Stage,
        DeviceMethod::Unstage => op is Unstage,
        DeviceMethod::Kickoff => op matches DeviceOp::Kickoff(label) && label@ == "kickoff("@ + name
            + ")"@,
        DeviceMethod::Complete => op matches DeviceOp::Complete(label) && label@ == "complete("@
            + name + ")"@,
    }
}

/// The name of a method, as errors name it.
pub open spec fn method_name(m: DeviceMethod) -> Seq<char> {
    match m {
        DeviceMethod::Position => "position"@,
        DeviceMethod::Target => "target"@,
        DeviceMethod::Locate => "locate"@,
        DeviceMethod::Read => "read"@,
        DeviceMethod::Describe => "describe"@,
        DeviceMethod::Send(..) => "set"@,
        DeviceMethod::MoveTo(_) => "move_to"@,
        DeviceMethod::Trigger => "trigger"@,
        DeviceMethod::Stop => "stop"@,
        DeviceMethod::StopEmergency => "stop_emergency"@,
        DeviceMethod::Stage => "stage"@,
        DeviceMethod::Unstage => "unstage"@,
        DeviceMethod::Kickoff => "kickoff"@,
        DeviceMethod::Complete => "complete"@,
    }
}

impl DeviceMethod {
    /// The role that the method needs.
    fn role(&self) -> (r: Role)
        ensures
            r == method_role(*self),
    {
        match self {
            DeviceMethod::Position | DeviceMethod::Target | DeviceMethod::Locate => Role::Locatable,
            DeviceMethod::Read | DeviceMethod::Describe => Role::Readable,
            DeviceMethod::Send(..) | DeviceMethod::MoveTo(_) => Role::Movable,
            DeviceMethod::Trigger => Role::Triggerable,
            DeviceMethod::Stop | DeviceMethod::StopEmergency => Role::Stoppable,
            DeviceMethod::Stage | DeviceMethod::Unstage => Role::Stageable,
            DeviceMethod::Kickoff | DeviceMethod::Complete => Role::Flyable,
        }
    }

    /// The name of the method, as errors name it.
    fn name(&self) -> (s: &'static str)
        ensures
            s@ == method_name(*self),
    {
        match self {
            DeviceMethod::Position => "position",
            DeviceMethod::Target => "target",
            DeviceMethod::Locate => "locate",
            DeviceMethod::Read => "read",
            DeviceMethod::Describe => "describe",
            DeviceMethod::Send(..) => "set",
            DeviceMethod::MoveTo(_) => "move_to",
            DeviceMethod::Trigger => "trigger",
            DeviceMethod::Stop => "stop",
            DeviceMethod::StopEmergency => "stop_emergency",
            DeviceMethod::Stage => "stage",
            DeviceMethod::Unstage => "unstage",
            DeviceMethod::Kickoff => "kickoff",
            DeviceMethod::Complete => "complete",
        }
    }

    /// What the script is told when the method fails.
    pub fn failed(&self, error: &CirrusError) -> (s: String)
        ensures
            s@ == method_name(*self) + ": "@ + error_text(*error),
    {
        join3(self.name(), ": ", &error.describe())
    }
}

/// Finds out what a script's call of a method comes to: the object and what to do with it, or
/// what the script is told where the device does not play the role.
pub fn device_call(d: &LuaDevice, m: &DeviceMethod) -> (r: Result<(ObjRef, DeviceOp), String>)
    ensures
        match player(*d, method_role(*m)) {
            Some(o) => r matches Ok((obj, op)) && obj == o && method_does(*m, d.name@, op),
            None => r matches Err(e) && e@ == not_playing(*d, method_role(*m)),
        },
{
    let obj = match d.need(m.role()) {
        Ok(o) => o,
        Err(e) => {
            return Err(e);
        },
    };
    let op = match m {
        DeviceMethod::Position | DeviceMethod::Target | DeviceMethod::Locate => DeviceOp::Locate,
        DeviceMethod::Read => DeviceOp::Read,
        DeviceMethod::Describe => DeviceOp::Describe,
        DeviceMethod::Send(v, shown) => DeviceOp::Send(
            *v,
            join3(&join3("set(", &d.name, "="), shown, ")"),
        ),
        DeviceMethod::MoveTo(v) => DeviceOp::MoveTo(*v),
        DeviceMethod::Trigger => DeviceOp::Trigger(join3("trigger(", &d.name, ")")),
        DeviceMethod::Stop => DeviceOp::Stop(true),
        DeviceMethod::StopEmergency => DeviceOp::Stop(false),
        DeviceMethod::Stage => DeviceOp::Stage,
        DeviceMethod::Unstage => DeviceOp::Unstage,
        DeviceMethod::Kickoff => DeviceOp::Kickoff(join3("kickoff(", &d.name, ")")),
        DeviceMethod::Complete => DeviceOp::Complete(join3("complete(", &d.name, ")")),
    };
    Ok((obj, op))
}

/// What a script gets of a location.
pub open spec fn location_out(m: DeviceMethod, l: DynLocation) -> OutView {
    match m {
        DeviceMethod::Position => OutView::Number(l.readback),
        DeviceMethod::Target => OutView::Number(l.setpoint),
        _ => OutView::Fields(
            seq![
                ("setpoint"@, OutView::Number(l.setpoint)),
                ("readback"@, OutView::Number(l.readback)),
            ],
        ),
    }
}

/// What a script gets when it asked where a device is.
pub fn located(m: &DeviceMethod, reply: Result<DynLocation, CirrusError>) -> (r: Result<
    LuaOut,
    String,
>)
    ensures
        match reply {
            Ok(l) => r matches Ok(v) && v.deep_view() == location_out(*m, l),
            Err(e) => r matches Err(t) && t@ == method_name(*m) + ": "@ + error_text(e),
        },
{
    match reply {
        Ok(l) => Ok(
            match m {
                DeviceMethod::Position => LuaOut::Number(l.readback),
                DeviceMethod::Target => LuaOut::Number(l.setpoint),
                _ => location_table(l.setpoint, l.readback),
            },
        ),
        Err(e) => Err(m.failed(&e)),
    }
}

/// The table of a setpoint and a readback.
pub fn location_table(setpoint: Double, readback: Double) -> (v: LuaOut)
    ensures
        v.deep_view() == OutView::Fields(
            seq![
                ("setpoint"@, OutView::Number(setpoint)),
                ("readback"@, OutView::Number(readback)),
            ],
        ),
{
    let mut fields: Vec<(String, LuaOut)> = Vec::new();
    fields.push(("setpoint".to_owned(), LuaOut::Number(setpoint)));
    fields.push(("readback".to_owned(), LuaOut::Number(readback)));
    let v = out_fields(fields);
    assert(v.deep_view()->Fields_0 =~= seq![
        ("setpoint"@, OutView::Number(setpoint)),
        ("readback"@, OutView::Number(readback)),
    ]);
    v
}

/// What a script gets when it read a device.
pub fn read_reply(reply: Result<StrMap<ReadingValue>, CirrusError>) -> (r: Result<LuaOut, String>)
    ensures
        match reply {
            Ok(readings) => r matches Ok(v) && v.deep_view() == readings_out(readings.pairs()),
            Err(e) => r matches Err(t) && t@ == "read: "@ + error_text(e),
        },
{
    match reply {
        Ok(readings) => Ok(readings_table(&readings)),
        Err(e) => Err(join2("read: ", &e.describe())),
    }
}

/// The name of a type in full.
pub open spec fn dtype_label(d: Dtype) -> Seq<char> {
    match d {
        Dtype::String => "String"@,
        Dtype::Number => "Number"@,
        Dtype::Array => "Array"@,
        Dtype::Boolean => "Boolean"@,
        Dtype::Integer => "Integer"@,
    }
}

/// The sizes of a shape that are known.
pub open spec fn known_sizes(shape: Seq<Option<u64>>) -> Seq<OutView>
    decreases shape.len(),
{
    if shape.len() == 0 {
        seq![]
    } else {
        match shape.last() {
            Some(n) => known_sizes(shape.drop_last()).push(OutView::Integer(n as i64)),
            None => known_sizes(shape.drop_last()),
        }
    }
}

/// The table of one data key.
pub open spec fn key_out(k: DataKeyView) -> OutView {
    let base = seq![
        ("source"@, OutView::Str(k.source)),
        ("dtype"@, OutView::Str(dtype_label(k.dtype))),
        ("shape"@, OutView::Items(known_sizes(k.shape))),
    ];
    let with_units = match k.units {
        Some(u) => base.push(("units"@, OutView::Str(u))),
        None => base,
    };
    OutView::Fields(
        match k.precision {
            Some(p) => with_units.push(("precision"@, OutView::Integer(p))),
            None => with_units,
        },
    )
}

/// The table of one data key.
pub fn key_table(k: &DataKey) -> (v: LuaOut)
    ensures
        v.deep_view() == key_out(k.deep_view()),
{
    let dtype = match k.dtype {
        Dtype::String => "String",
        Dtype::Number => "Number",
        Dtype::Array => "Array",
        Dtype::Boolean => "Boolean",
        Dtype::Integer => "Integer",
    };
    let mut sizes: Vec<LuaOut> = Vec::new();
    let mut i: usize = 0;
    assert(k.shape@.take(0) =~= seq![]);
    assert(crate::lua_value::outs_view(sizes@) =~= seq![]);
    while i < k.shape.len()
        invariant
            i <= k.shape.len(),
            crate::lua_value::outs_view(sizes@) == known_sizes(k.shape@.take(i as int)),
        decreases k.shape.len() - i,
    {
        let ghost next = k.shape@.take(i + 1);
        assert(next.drop_last() =~= k.shape@.take(i as int));
        let ghost before = crate::lua_value::outs_view(sizes@);
        if let Some(n) = k.shape[i] {
            sizes.push(LuaOut::Integer(#[verifier::truncate] (n as i64)));
            assert(crate::lua_value::outs_view(sizes@) =~= before.push(
                OutView::Integer(n as i64),
            ));
        }
        i += 1;
    }
    assert(k.shape@.take(k.shape@.len() as int) =~= k.shape@);
    let shape = LuaOut::Items(sizes);
    assert(out_view(shape)->Items_0 =~= crate::lua_value::outs_view(sizes@));
    let mut fields: Vec<(String, LuaOut)> = Vec::new();
    fields.push(("source".to_owned(), LuaOut::Str(k.source.clone())));
    fields.push(("dtype".to_owned(), LuaOut::Str(dtype.to_owned())));
    fields.push(("shape".to_owned(), shape));
    if let Some(u) = &k.units {
        fields.push(("units".to_owned(), LuaOut::Str(u.clone())));
    }
    if let Some(p) = k.precision {
        fields.push(("precision".to_owned(), LuaOut::Integer(p)));
    }
    let v = out_fields(fields);
    assert(v.deep_view()->Fields_0 =~= key_out(k.deep_view())->Fields_0);
    v
}

/// The table of several data keys.
pub open spec fn keys_out(pairs: Seq<(Seq<char>, DataKeyView)>) -> OutView {
    OutView::Fields(pairs.map_values(|p: (Seq<char>, DataKeyView)| (p.0, key_out(p.1))))
}

/// What a script gets when it asked a device to describe itself.
pub fn describe_reply(reply: Result<StrMap<DataKey>, CirrusError>) -> (r: Result<LuaOut, String>)
    ensures
        match reply {
            Ok(keys) => r matches Ok(v) && v.deep_view() == keys_out(keys.pairs()),
            Err(e) => r matches Err(t) && t@ == "describe: "@ + error_text(e),
        },
{
    let keys = match reply {
        Ok(keys) => keys,
        Err(e) => {
            return Err(join2("describe: ", &e.describe()));
        },
    };
    let mut fields: Vec<(String, LuaOut)> = Vec::new();
    let mut i: usize = 0;
    while i < keys.len()
        invariant
            i <= keys.pairs().len(),
            fields@.len() == i,
            forall|k: int|
                0 <= k < i ==> (#[trigger] fields@[k]).0@ == keys.pairs()[k].0 && out_view(
                    fields@[k].1,
                ) == key_out(keys.pairs()[k].1),
        decreases keys.pairs().len() - i,
    {
        fields.push((keys.key_at(i).clone(), key_table(keys.value_at(i))));
        i += 1;
    }
    let v = out_fields(fields);
    assert(v.deep_view()->Fields_0 =~= keys_out(keys.pairs())->Fields_0);
    Ok(v)
}

/// A status error in full.
pub open spec fn status_error_debug(e: StatusError) -> Seq<char> {
    match e {
        StatusError::Cancelled => "Cancelled"@,
        StatusError::Timeout => "Timeout"@,
        StatusError::Failed(s) => "Failed("@ + str_debug(s@) + ")"@,
    }
}

/// A status error in full.
pub fn debug_status_error(e: &StatusError) -> (s: String)
    ensures
        s@ == status_error_debug(*e),
{
    match e {
        StatusError::Cancelled => "Cancelled".to_owned(),
        StatusError::Timeout => "Timeout".to_owned(),
        StatusError::Failed(m) => join3("Failed(", &debug_str(m), ")"),
    }
}

/// What a script gets when it moved a device and waited.
pub fn moved(reply: Result<(), StatusError>) -> (r: Result<(), String>)
    ensures
        match reply {
            Ok(()) => r is Ok,
            Err(e) => r matches Err(t) && t@ == "move_to: "@ + status_error_debug(e),
        },
{
    match reply {
        Ok(()) => Ok(()),
        Err(e) => Err(join2("move_to: ", &debug_status_error(&e))),
    }
}

/// A status as scripts hold it.
#[derive(Debug)]
pub struct LuaStatus {
    inner: Status,
    label: String,
}

impl LuaStatus {
    /// The status.
    pub closed spec fn held(&self) -> StatusView {
        self.inner@
    }

    /// The label.
    pub closed spec fn labelled(&self) -> Seq<char> {
        self.label@
    }

    /// Builds it from a status.
    pub fn new(status: Status, label: String) -> (s: Self)
        ensures
            s.held() == status@,
            s.labelled() == label@,
    {
        LuaStatus { inner: status, label }
    }

    /// Completes the status; of several completions the first wins.
    pub fn complete(&mut self, outcome: StatusOutcome) -> (fire: Vec<u64>)
        ensures
            final(self).held() == old(self).held().complete(outcome),
            fire@ == old(self).held().fired(),
            final(self).labelled() == old(self).labelled(),
    {
        self.inner.complete(outcome)
    }

    /// How the status is shown.
    pub fn shown(&self) -> (s: String)
        ensures
            s@ == "Status("@ + self.labelled() + ", done="@ + bool_text(
                self.held().outcome is Some,
            ) + ", success="@ + success_text(self.held()) + ")"@,
    {
        let success = match self.inner.poll() {
            None => "null",
            Some(Ok(())) => "true",
            Some(Err(_)) => "false",
        };
        join3(
            &join3(
                &join3("Status(", &self.label, ", done="),
                show_bool(self.inner.done_state()),
                ", success=",
            ),
            success,
            ")",
        )
    }

    /// What waiting for the status gives: nothing while it is pending.
    pub fn wait(&self) -> (r: Option<Result<(), String>>)
        ensures
            match self.held().outcome {
                None => r is None,
                Some(StatusOutcome::Success) => r matches Some(Ok(())),
                Some(StatusOutcome::Failed(e)) => {
                    &&& r matches Some(Err(t))
                    &&& t@ == "status: "@ + status_error_debug(e)
                },
            },
    {
        match self.inner.poll() {
            None => None,
            Some(Ok(())) => Some(Ok(())),
            Some(Err(e)) => Some(Err(join2("status: ", &debug_status_error(&e)))),
        }
    }

    /// Whether the operation has completed.
    pub fn done(&self) -> (yes: bool)
        ensures
            yes == (self.held().outcome is Some),
    {
        self.inner.done_state()
    }

    /// Whether the operation succeeded, once it has completed.
    pub fn success(&self) -> (yes: Option<bool>)
        ensures
            yes == match self.held().outcome {
                None => None,
                Some(o) => Some(o is Success),
            },
    {
        if self.inner.done_state() {
            Some(self.inner.success())
        } else {
            None
        }
    }

    /// The text of the error, if the operation failed.
    pub fn exception(&self) -> (e: Option<String>)
        ensures
            e.deep_view() == match self.held().outcome {
                Some(StatusOutcome::Failed(e)) => Some(status_error_text(e)),
                _ => None,
            },
    {
        match self.inner.exception() {
            Some(e) => Some(e.describe()),
            None => None,
        }
    }

    /// The latest progress fraction.
    pub fn progress(&self) -> (p: Double)
        ensures
            p == self.held().progress,
    {
        self.inner.progress()
    }

    /// A table of the current state, with the label.
    pub fn inspect(&self) -> (v: LuaOut)
        ensures
            v.deep_view() == status_out(self.held(), self.labelled()),
    {
        let j = self.inner.inspect();
        let t = json_to_lua(&j);
        match t {
            LuaOut::Fields(fields) => {
                let mut fields = fields;
                assert(out_fields_view(fields@) =~= json_out(
                    status_table(self.held()),
                )->Fields_0);
                let ghost before = out_fields_view(fields@);
                fields.push(("label".to_owned(), LuaOut::Str(self.label.clone())));
                assert(out_fields_view(fields@) =~= before.push(
                    ("label"@, OutView::Str(self.label@)),
                ));
                out_fields(fields)
            },
            other => other,
        }
    }
}

/// Whether a status succeeded, as it is shown.
pub open spec fn success_text(s: StatusView) -> Seq<char> {
    match s.outcome {
        None => "null"@,
        Some(o) => bool_text(o is Success),
    }
}

/// The table of a status: what [`status_table`] says, and the label.
pub open spec fn status_out(s: StatusView, label: Seq<char>) -> OutView {
    OutView::Fields(json_out(status_table(s))->Fields_0.push(("label"@, OutView::Str(label))))
}

/// A device that counts how often it is paused and resumed.
#[derive(Debug)]
pub struct LuaPausableCounter {
    name: String,
    paused: u64,
    resumed: u64,
}

/// What a [`LuaPausableCounter`] stands for.
pub struct CounterView {
    /// The name.
    pub name: Seq<char>,
    /// How often it was paused.
    pub paused: u64,
    /// How often it was resumed.
    pub resumed: u64,
}

impl DeepView for LuaPausableCounter {
    type V = CounterView;

    closed spec fn deep_view(&self) -> CounterView {
        CounterView { name: self.name@, paused: self.paused, resumed: self.resumed }
    }
}

impl LuaPausableCounter {
    /// A counter at zero.
    pub fn new(name: &str) -> (c: Self)
        ensures
            c.deep_view() == (CounterView { name: name@, paused: 0, resumed: 0 }),
    {
        LuaPausableCounter { name: name.to_owned(), paused: 0, resumed: 0 }
    }

    /// How often it was paused and resumed.
    pub fn counts(&self) -> (n: (u64, u64))
        ensures
            n == (self.deep_view().paused, self.deep_view().resumed),
    {
        (self.paused, self.resumed)
    }
}

impl NamedObj for LuaPausableCounter {
    open spec fn named(&self) -> Seq<char> {
        self.deep_view().name
    }

    fn name(&self) -> (n: &str) {
        &self.name
    }
}

impl PausableObj for LuaPausableCounter {
    fn pause_dyn(&mut self) -> (r: Result<(), CirrusError>)
        ensures
            r is Ok,
            final(self).deep_view() == (CounterView {
                paused: old(self).deep_view().paused.wrapping_add(1),
                ..old(self).deep_view()
            }),
    {
        self.paused = self.paused.wrapping_add(1);
        Ok(())
    }

    fn resume_dyn(&mut self) -> (r: Result<(), CirrusError>)
        ensures
            r is Ok,
            final(self).deep_view() == (CounterView {
                resumed: old(self).deep_view().resumed.wrapping_add(1),
                ..old(self).deep_view()
            }),
    {
        self.resumed = self.resumed.wrapping_add(1);
        Ok(())
    }
}

/// How often the device of the given name was paused and resumed; never, where there is no such
/// counter.
pub fn pause_counts(counters: &StrMap<LuaPausableCounter>, name: &str) -> (n: (u64, u64))
    ensures
        n == if counters@.dom().contains(name@) {
            (counters@[name@].paused, counters@[name@].resumed)
        } else {
            (0u64, 0u64)
        },
{
    match counters.get(name) {
        Some(c) => c.counts(),
        None => (0, 0),
    }
}

/// A method of a device acts on the object that plays the role that it needs, and does what it is
/// named for: a move goes to the value that was given, and only an emergency stop is unplanned. It
/// is refused exactly where the device does not play the role.
pub proof fn law_methods_reach_their_objects(
    d: LuaDevice,
    m: DeviceMethod,
    r: Result<(ObjRef, DeviceOp), String>,
)
    requires
        call_ensures(device_call, (&d, &m), r),
    ensures
        match m {
            DeviceMethod::Position => (r is Ok <==> d.locatable is Some) && (r matches Ok((o, op)) ==> o == d.locatable->0
                && op is Locate),
            DeviceMethod::Target => (r is Ok <==> d.locatable is Some) && (r matches Ok((o, op)) ==> o == d.locatable->0
                && op is Locate),
            DeviceMethod::Locate => (r is Ok <==> d.locatable is Some) && (r matches Ok((o, op)) ==> o == d.locatable->0
                && op is Locate),
            DeviceMethod::Read => (r is Ok <==> d.readable is Some) && (r matches Ok((o, op)) ==> o == d.readable->0
                && op is Read),
            DeviceMethod::Describe => (r is Ok <==> d.readable is Some) && (r matches Ok((o, op)) ==> o == d.readable->0
                && op is Describe),
            DeviceMethod::Send(v, _) => (r is Ok <==> d.movable is Some) && (r matches Ok((o, op)) ==> o == d.movable->0
                && (op matches DeviceOp::Send(w, _) && w == v)),
            DeviceMethod::MoveTo(v) => (r is Ok <==> d.movable is Some) && (r matches Ok((o, op)) ==> o == d.movable->0
                && op == DeviceOp::MoveTo(v)),
            DeviceMethod::Trigger => (r is Ok <==> d.triggerable is Some) && (r matches Ok((o, op)) ==> o == d.triggerable->0
                && op is Trigger),
            DeviceMethod::Stop => (r is Ok <==> d.stoppable is Some) && (r matches Ok((o, op)) ==> o == d.stoppable->0
                && op == DeviceOp::Stop(true)),
            DeviceMethod::StopEmergency => (r is Ok <==> d.stoppable is Some) && (r matches Ok((o, op)) ==> o == d.stoppable->0
                && op == DeviceOp::Stop(false)),
            DeviceMethod::Stage => (r is Ok <==> d.stageable is Some) && (r matches Ok((o, op)) ==> o == d.stageable->0
                && op is Stage),
            DeviceMethod::Unstage => (r is Ok <==> d.stageable is Some) && (r matches Ok((o, op)) ==> o == d.stageable->0
                && op is Unstage),
            DeviceMethod::Kickoff => (r is Ok <==> d.flyable is Some) && (r matches Ok((o, op)) ==> o == d.flyable->0
                && op is Kickoff),
            DeviceMethod::Complete => (r is Ok <==> d.flyable is Some) && (r matches Ok((o, op)) ==> o == d.flyable->0
                && op is Complete),
        },
{
}

/// The position of a device is its readback and its target is its setpoint; a location has both
/// under their own names.
pub proof fn law_position_is_the_readback(
    m: DeviceMethod,
    l: DynLocation,
    r: Result<LuaOut, String>,
)
    requires
        call_ensures(located, (&m, Ok(l)), r),
    ensures
        r is Ok,
        m is Position ==> r->Ok_0 == LuaOut::Number(l.readback),
        m is Target ==> r->Ok_0 == LuaOut::Number(l.setpoint),
        m is Locate ==> (r->Ok_0.deep_view() matches OutView::Fields(f) && f.len() == 2 && f[0].0
            == "setpoint"@ && f[0].1 == OutView::Number(l.setpoint) && f[1].0 == "readback"@
            && f[1].1 == OutView::Number(l.readback)),
{
}

/// The description of a field tells its source, its type, the sizes of its shape that are known, and
/// its units and its precision where there are any.
pub proof fn law_description_tells_of_the_field(k: DataKey, v: LuaOut)
    requires
        call_ensures(key_table, (&k,), v),
    ensures
        v.deep_view() matches OutView::Fields(f) && {
            &&& f.len() >= 3
            &&& f[0] == ("source"@, OutView::Str(k.source@))
            &&& f[1].0 == "dtype"@
            &&& f[1].1 == OutView::Str(
                match k.dtype {
                    Dtype::String => "String"@,
                    Dtype::Number => "Number"@,
                    Dtype::Array => "Array"@,
                    Dtype::Boolean => "Boolean"@,
                    Dtype::Integer => "Integer"@,
                },
            )
            &&& f[2].0 == "shape"@ && f[2].1 is Items
            &&& k.units matches Some(u) ==> f.len() > 3 && f[3] == ("units"@, OutView::Str(u@))
            &&& k.precision matches Some(p) ==> f.last() == ("precision"@, OutView::Integer(p))
            &&& f.len() == 3 + (if k.units is Some {
                1int
            } else {
                0int
            }) + (if k.precision is Some {
                1int
            } else {
                0int
            })
        },
{
}

/// A shape that is wholly known keeps its sizes, in order.
pub proof fn law_known_sizes_keep_their_order(shape: Seq<Option<u64>>)
    requires
        forall|i: int| 0 <= i < shape.len() ==> (#[trigger] shape[i]) is Some,
    ensures
        known_sizes(shape).len() == shape.len(),
        forall|i: int|
            0 <= i < shape.len() ==> #[trigger] known_sizes(shape)[i] == OutView::Integer(
                shape[i]->0 as i64,
            ),
    decreases shape.len(),
{
    if shape.len() > 0 {
        let rest = shape.drop_last();
        assert forall|i: int| 0 <= i < rest.len() implies (#[trigger] rest[i]) is Some by {
            assert(rest[i] == shape[i]);
        }
        law_known_sizes_keep_their_order(rest);
        assert(shape[shape.len() - 1] is Some);
        assert forall|i: int| 0 <= i < shape.len() implies #[trigger] known_sizes(shape)[i]
            == OutView::Integer(shape[i]->0 as i64) by {
            if i < rest.len() {
                assert(known_sizes(shape)[i] == known_sizes(rest)[i]);
                assert(rest[i] == shape[i]);
            }
        }
    }
}

/// The descriptions of several fields are told under their own keys, in order.
pub proof fn law_descriptions_stand_under_their_keys(
    keys: StrMap<DataKey>,
    r: Result<LuaOut, String>,
)
    requires
        call_ensures(describe_reply, (Ok(keys),), r),
    ensures
        r is Ok,
        r->Ok_0.deep_view() matches OutView::Fields(f) && f.len() == keys.pairs().len() && forall|
            i: int,
        |
            0 <= i < f.len() ==> (#[trigger] f[i]).0 == keys.pairs()[i].0 && f[i].1 == key_out(
                keys.pairs()[i].1,
            ),
{
}

/// A status that scripts hold tells the same in every way: while it is pending there is no outcome
/// to wait for, no success and no error; when it is done its wait ends as it did.
pub proof fn law_status_tells_its_outcome(
    s: LuaStatus,
    waited: Option<Result<(), String>>,
    done: bool,
    success: Option<bool>,
    error: Option<String>,
)
    requires
        call_ensures(LuaStatus::wait, (&s,), waited),
        call_ensures(LuaStatus::done, (&s,), done),
        call_ensures(LuaStatus::success, (&s,), success),
        call_ensures(LuaStatus::exception, (&s,), error),
    ensures
        done <==> s.held().outcome is Some,
        waited is Some <==> done,
        success is Some <==> done,
        done ==> (success == Some(true) <==> waited matches Some(Ok(()))),
        done ==> (success == Some(false) <==> waited matches Some(Err(_))),
        error is Some <==> success == Some(false),
        s.held().outcome == Some(StatusOutcome::Success) ==> success == Some(true),
{
}

/// A motor can be read, moved, located and stopped by its object and nothing else; a detector can be
/// read.
pub proof fn law_devices_play_their_roles(name: &str, obj: ObjRef, motor: LuaDevice, det: LuaDevice)
    requires
        call_ensures(LuaDevice::motor, (name, obj), motor),
        call_ensures(LuaDevice::detector, (name, obj), det),
    ensures
        motor.name@ == name@ && det.name@ == name@,
        motor.readable == Some(obj) && motor.movable == Some(obj) && motor.locatable == Some(obj)
            && motor.stoppable == Some(obj),
        motor.triggerable is None && motor.stageable is None && motor.monitorable is None
            && motor.flyable is None && motor.preparable is None && motor.configurable is None
            && motor.collectable is None && motor.pausable is None,
        det.readable == Some(obj),
        det.movable is None && det.locatable is None && det.stoppable is None && det.triggerable
            is None && det.pausable is None,
{
    assert(player(motor, Role::Readable) == Some(obj));
    assert(player(motor, Role::Movable) == Some(obj));
    assert(player(motor, Role::Locatable) == Some(obj));
    assert(player(motor, Role::Stoppable) == Some(obj));
    assert(player(motor, Role::Triggerable) is None);
    assert(player(motor, Role::Stageable) is None);
    assert(player(motor, Role::Monitorable) is None);
    assert(player(motor, Role::Flyable) is None);
    assert(player(motor, Role::Preparable) is None);
    assert(player(motor, Role::Configurable) is None);
    assert(player(motor, Role::Collectable) is None);
    assert(player(motor, Role::Pausable) is None);
    assert(player(det, Role::Readable) == Some(obj));
    assert(player(det, Role::Movable) is None);
    assert(player(det, Role::Locatable) is None);
    assert(player(det, Role::Stoppable) is None);
    assert(player(det, Role::Triggerable) is None);
    assert(player(det, Role::Pausable) is None);
}

/// A device that plays a role gives the object that plays it, and one that does not is told so by
/// its own name; a bare device plays none. What tells of a device is the first of its objects.
pub proof fn law_role_is_needed(
    name: &str,
    bare: LuaDevice,
    d: &LuaDevice,
    role: Role,
    r: Result<ObjRef, String>,
    o: Option<ObjRef>,
)
    requires
        call_ensures(LuaDevice::bare, (name,), bare),
        call_ensures(LuaDevice::need, (d, role), r),
        call_ensures(LuaDevice::teller, (d,), o),
    ensures
        bare.name@ == name@,
        forall|x: Role| #[trigger] player(bare, x) is None,
        r is Ok <==> player(*d, role) is Some,
        r matches Ok(p) ==> player(*d, role) == Some(p),
        r matches Err(e) ==> d.name@.is_prefix_of(e@),
        d.readable is Some ==> o == d.readable,
        d.readable is None && d.movable is Some ==> o == d.movable,
        d.readable is None && d.movable is None && d.locatable is Some ==> o == d.locatable,
        o matches Some(p) ==> (d.readable == o || d.movable == o || d.locatable == o
            || d.triggerable == o || d.stageable == o || d.stoppable == o || d.monitorable == o
            || d.flyable == o || d.collectable == o || d.pausable == o),
        o is None <==> d.readable is None && d.movable is None && d.locatable is None
            && d.triggerable is None && d.stageable is None && d.stoppable is None
            && d.monitorable is None && d.flyable is None && d.collectable is None
            && d.pausable is None,
{
    reveal_with_fuel(first_player, 11);
    let t = tellers();
    assert(t.skip(1)[0] == Role::Movable);
    assert(t.skip(1).skip(1)[0] == Role::Locatable);
    assert(t.skip(1).skip(1).skip(1)[0] == Role::Triggerable);
    assert(t.skip(1).skip(1).skip(1).skip(1)[0] == Role::Stageable);
    assert(t.skip(1).skip(1).skip(1).skip(1).skip(1)[0] == Role::Stoppable);
    assert(t.skip(1).skip(1).skip(1).skip(1).skip(1).skip(1)[0] == Role::Monitorable);
    assert(t.skip(1).skip(1).skip(1).skip(1).skip(1).skip(1).skip(1)[0] == Role::Flyable);
    assert(t.skip(1).skip(1).skip(1).skip(1).skip(1).skip(1).skip(1).skip(1)[0]
        == Role::Collectable);
    assert(t.skip(1).skip(1).skip(1).skip(1).skip(1).skip(1).skip(1).skip(1).skip(1)[0]
        == Role::Pausable);
    assert(t.skip(1).skip(1).skip(1).skip(1).skip(1).skip(1).skip(1).skip(1).skip(1).skip(1).len()
        == 0);
}

/// Where a device was sent and where it is are told apart; a move that failed is told as a failure.
pub proof fn law_location_is_told(
    setpoint: Double,
    readback: Double,
    v: LuaOut,
    reply: Result<(), StatusError>,
    r: Result<(), String>,
)
    requires
        call_ensures(location_table, (setpoint, readback), v),
        call_ensures(moved, (reply,), r),
    ensures
        match v.deep_view() {
            OutView::Fields(f) => {
                &&& f.len() == 2
                &&& f.contains(("setpoint"@, OutView::Number(setpoint)))
                &&& f.contains(("readback"@, OutView::Number(readback)))
            },
            _ => false,
        },
        reply is Ok <==> r is Ok,
{
    let f = v.deep_view()->Fields_0;
    assert(f[0] == ("setpoint"@, OutView::Number(setpoint)));
    assert(f[1] == ("readback"@, OutView::Number(readback)));
}

/// Roles have names of their own: two roles with one name are one role.
pub proof fn law_role_names_differ(a: Role, b: Role)
    requires
        role_name(a) == role_name(b),
    ensures
        a == b,
{
    reveal_strlit("readable");
    reveal_strlit("movable");
    reveal_strlit("locatable");
    reveal_strlit("stoppable");
    reveal_strlit("triggerable");
    reveal_strlit("stageable");
    reveal_strlit("monitorable");
    reveal_strlit("flyable");
    reveal_strlit("preparable");
    reveal_strlit("configurable");
    reveal_strlit("collectable");
    reveal_strlit("pausable");
    assert("readable"@.len() == 8 && "readable"@[0] == 'r');
    assert("pausable"@.len() == 8 && "pausable"@[0] == 'p');
    assert("movable"@.len() == 7 && "movable"@[0] == 'm');
    assert("flyable"@.len() == 7 && "flyable"@[0] == 'f');
    assert("locatable"@.len() == 9 && "locatable"@[0] == 'l');
    assert("stoppable"@.len() == 9 && "stoppable"@[1] == 't' && "stoppable"@[2] == 'o');
    assert("stageable"@.len() == 9 && "stageable"@[1] == 't' && "stageable"@[2] == 'a');
    assert("triggerable"@.len() == 11 && "triggerable"@[0] == 't');
    assert("monitorable"@.len() == 11 && "monitorable"@[0] == 'm');
    assert("collectable"@.len() == 11 && "collectable"@[0] == 'c');
    assert("preparable"@.len() == 10);
    assert("configurable"@.len() == 12);
}

} // verus!
