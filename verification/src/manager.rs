//! Setting up the queue server.

use vstd::prelude::*;
use vstd::string::*;

use crate::checkpoint_store::{default_path, default_path_spec};
use crate::msg::{debug_str, str_debug};
use crate::text::{
    dec_u64, decimal, join2, join3, lemma_find_char, split_at_char, split_once,
};

verus! {

/// Arguments of the queue server.
#[derive(Debug)]
pub struct ManagerArgs {
    /// Address of the control socket.
    pub control: String,
    /// Address of the document socket.
    pub documents: String,
    /// How many detectors in memory to register.
    pub soft_detectors: u64,
    /// How many motors in memory to register.
    pub soft_motors: u64,
    /// Address of the metrics listener.
    pub metrics: Option<String>,
    /// Path of the permissions file.
    pub permissions: Option<String>,
    /// Path of the checkpoint file.
    pub checkpoints: Option<String>,
    /// Motors behind Channel Access, each as `name=val_pv,rbv_pv`.
    pub ca_motor: Vec<String>,
    /// Detectors behind Channel Access, each as `name=pv`.
    pub ca_detector: Vec<String>,
}

impl Default for ManagerArgs {
    fn default() -> (a: Self)
        ensures
            a.control@ == "tcp://*:60615"@,
            a.documents@ == "tcp://*:60625"@,
            a.soft_detectors == 1,
            a.soft_motors == 1,
            a.metrics is None,
            a.permissions is None,
            a.checkpoints is None,
            a.ca_motor@ == Seq::<String>::empty(),
            a.ca_detector@ == Seq::<String>::empty(),
    {
        ManagerArgs {
            control: "tcp://*:60615".to_owned(),
            documents: "tcp://*:60625".to_owned(),
            soft_detectors: 1,
            soft_motors: 1,
            metrics: None,
            permissions: None,
            checkpoints: None,
            ca_motor: Vec::new(),
            ca_detector: Vec::new(),
        }
    }
}

/// A motor behind Channel Access.
#[derive(Debug)]
pub struct CaMotorSpec {
    /// The name.
    pub name: String,
    /// Where its setpoint is.
    pub val_pv: String,
    /// Where its readback is.
    pub rbv_pv: String,
}

/// A detector behind Channel Access.
#[derive(Debug)]
pub struct CaDetectorSpec {
    /// The name.
    pub name: String,
    /// Where its value is.
    pub pv: String,
}

/// The motor that `name=val_pv,rbv_pv` describes, or the complaint: the name ends at the first
/// `=`, and the first variable at the first `,` after that.
pub open spec fn ca_motor_of(spec: Seq<char>) -> Result<
    (Seq<char>, Seq<char>, Seq<char>),
    Seq<char>,
> {
    match split_at_char(spec, '=') {
        None => Err(
            "cirrus qs-manager: --ca-motor expects 'name=val_pv,rbv_pv', got "@ + str_debug(spec),
        ),
        Some((name, pvs)) => match split_at_char(pvs, ',') {
            None => Err(
                "cirrus qs-manager: --ca-motor PVs must be 'val,rbv', got "@ + str_debug(pvs),
            ),
            Some((val, rbv)) => Ok((name, val, rbv)),
        },
    }
}

/// The detector that `name=pv` describes, or the complaint: the name ends at the first `=`.
pub open spec fn ca_detector_of(spec: Seq<char>) -> Result<(Seq<char>, Seq<char>), Seq<char>> {
    match split_at_char(spec, '=') {
        None => Err(
            "cirrus qs-manager: --ca-detector expects 'name=pv', got "@ + str_debug(spec),
        ),
        Some(p) => Ok(p),
    }
}

/// Reads `name=val_pv,rbv_pv`.
pub fn parse_ca_motor(spec: &str) -> (r: Result<CaMotorSpec, String>)
    ensures
        match ca_motor_of(spec@) {
            Ok((name, val, rbv)) => r matches Ok(m) && m.name@ == name && m.val_pv@ == val
                && m.rbv_pv@ == rbv,
            Err(e) => r matches Err(s) && s@ == e,
        },
{
    let (name, pvs) = match split_once(spec, '=') {
        Some(p) => p,
        None => {
            return Err(
                join2(
                    "cirrus qs-manager: --ca-motor expects 'name=val_pv,rbv_pv', got ",
                    &debug_str(spec),
                ),
            );
        },
    };
    match split_once(&pvs, ',') {
        Some((val_pv, rbv_pv)) => Ok(CaMotorSpec { name, val_pv, rbv_pv }),
        None => Err(
            join2("cirrus qs-manager: --ca-motor PVs must be 'val,rbv', got ", &debug_str(&pvs)),
        ),
    }
}

/// Reads `name=pv`.
pub fn parse_ca_detector(spec: &str) -> (r: Result<CaDetectorSpec, String>)
    ensures
        match ca_detector_of(spec@) {
            Ok((name, pv)) => r matches Ok(d) && d.name@ == name && d.pv@ == pv,
            Err(e) => r matches Err(s) && s@ == e,
        },
{
    match split_once(spec, '=') {
        Some((name, pv)) => Ok(CaDetectorSpec { name, pv }),
        None => Err(
            join2(
                "cirrus qs-manager: --ca-detector expects 'name=pv', got ",
                &debug_str(spec),
            ),
        ),
    }
}

/// One step of the setup.
#[derive(Debug)]
pub enum SetupStep {
    /// Register a detector in memory, to be read.
    SoftDetector(String),
    /// Register a motor in memory that stands at zero, to be read and moved.
    SoftMotor(String),
    /// Register the plan of this name.
    Plan(String),
    /// Connect a motor, and register it to be read, moved and located.
    CaMotor(CaMotorSpec),
    /// Connect a detector, and register it to be read.
    CaDetector(CaDetectorSpec),
    /// Complain and end with exit code 2.
    Fail(String),
    /// Start the server.
    Serve,
}

/// Whether `step` is the step number `i` of the setup.
pub open spec fn setup_step(a: ManagerArgs, i: int, step: SetupStep) -> bool {
    let d = a.soft_detectors as int;
    let m = d + a.soft_motors;
    let c = m + 1 + a.ca_motor@.len();
    if i < d {
        step matches SetupStep::SoftDetector(n) && n@ == "det"@ + decimal((i + 1) as nat)
    } else if i < m {
        step matches SetupStep::SoftMotor(n) && n@ == "m"@ + decimal((i - d + 1) as nat)
    } else if i == m {
        step matches SetupStep::Plan(n) && n@ == "count"@
    } else if i < c {
        match ca_motor_of(a.ca_motor@[i - m - 1]@) {
            Ok((name, val, rbv)) => step matches SetupStep::CaMotor(s) && s.name@ == name
                && s.val_pv@ == val && s.rbv_pv@ == rbv,
            Err(e) => step matches SetupStep::Fail(t) && t@ == e,
        }
    } else if i < c + a.ca_detector@.len() {
        match ca_detector_of(a.ca_detector@[i - c]@) {
            Ok((name, pv)) => step matches SetupStep::CaDetector(s) && s.name@ == name && s.pv@
                == pv,
            Err(e) => step matches SetupStep::Fail(t) && t@ == e,
        }
    } else {
        step is Serve
    }
}

impl ManagerArgs {
    /// The step number `i` of the setup. The host takes the steps in turn, up to the first that
    /// fails or serves.
    pub fn step(&self, i: u64) -> (step: SetupStep)
        requires
            self.soft_detectors + self.soft_motors + self.ca_motor@.len() + self.ca_detector@.len()
                < u64::MAX,
        ensures
            setup_step(*self, i as int, step),
    {
        let d: u64 = self.soft_detectors;
        if i < d {
            return SetupStep::SoftDetector(join2("det", &dec_u64(i + 1)));
        }
        let m: u64 = d + self.soft_motors;
        if i < m {
            return SetupStep::SoftMotor(join2("m", &dec_u64(i - d + 1)));
        }
        if i == m {
            return SetupStep::Plan("count".to_owned());
        }
        let c: u64 = m + 1 + self.ca_motor.len() as u64;
        if i < c {
            return match parse_ca_motor(&self.ca_motor[(i - m - 1) as usize]) {
                Ok(s) => SetupStep::CaMotor(s),
                Err(e) => SetupStep::Fail(e),
            };
        }
        if i - c < self.ca_detector.len() as u64 {
            return match parse_ca_detector(&self.ca_detector[(i - c) as usize]) {
                Ok(s) => SetupStep::CaDetector(s),
                Err(e) => SetupStep::Fail(e),
            };
        }
        SetupStep::Serve
    }

    /// The checkpoint file: the one that was given, or the default.
    pub fn checkpoint_path(&self, state: Option<String>, home: Option<String>) -> (p: String)
        ensures
            p@ == match self.checkpoints {
                Some(c) => c@,
                None => default_path_spec(state, home),
            },
    {
        match &self.checkpoints {
            Some(c) => c.clone(),
            None => default_path(state, home),
        }
    }

    /// What is printed when the server listens.
    pub fn greeting(&self) -> (s: String)
        ensures
            s@ == "cirrus qs-manager listening:\n  control:   "@ + self.control@
                + "\n  documents: "@ + self.documents@,
    {
        join3(
            &join2("cirrus qs-manager listening:\n  control:   ", &self.control),
            "\n  documents: ",
            &self.documents,
        )
    }
}

/// What is printed when a device cannot be connected; `what` says of which kind it is.
pub fn connect_complaint(what: &str, name: &str, e: &str) -> (s: String)
    ensures
        s@ == "cirrus qs-manager: "@ + what@ + " "@ + name@ + ": "@ + e@,
{
    join3(&join3(&join2("cirrus qs-manager: ", what), " ", name), ": ", e)
}

/// A description of a motor holds its name, its setpoint and its readback, put together again with
/// `=` and `,`; one of a detector holds its name and its variable. Neither a name nor a setpoint
/// holds the character that ends it.
pub proof fn law_descriptions_hold_their_parts(
    spec: &str,
    m: Result<CaMotorSpec, String>,
    d: Result<CaDetectorSpec, String>,
)
    requires
        call_ensures(parse_ca_motor, (spec,), m),
        call_ensures(parse_ca_detector, (spec,), d),
    ensures
        match m {
            Ok(m) => spec@ == m.name@ + seq!['='] + m.val_pv@ + seq![','] + m.rbv_pv@
                && !m.name@.contains('=') && !m.val_pv@.contains(','),
            Err(_) => !spec@.contains('=') || (d matches Ok(d) && !d.pv@.contains(',')),
        },
        match d {
            Ok(d) => spec@ == d.name@ + seq!['='] + d.pv@ && !d.name@.contains('='),
            Err(_) => !spec@.contains('='),
        },
{
    lemma_find_char(spec@, '=');
    if let Some((name, pvs)) = split_at_char(spec@, '=') {
        assert(spec@ =~= name + seq!['='] + pvs);
        lemma_find_char(pvs, ',');
        if let Some((val, rbv)) = split_at_char(pvs, ',') {
            assert(pvs =~= val + seq![','] + rbv);
            assert(spec@ =~= name + seq!['='] + val + seq![','] + rbv);
        }
    }
}

/// The setup takes every device that was asked for, each once: first the detectors in memory,
/// counted from one, then the motors in memory, then the plan, then the motors and the detectors
/// that were described, in the order given, and then it serves.
pub proof fn law_setup_takes_every_device(a: &ManagerArgs, i: u64, step: SetupStep)
    requires
        call_ensures(ManagerArgs::step, (a, i), step),
    ensures
        i < a.soft_detectors ==> (step matches SetupStep::SoftDetector(n) && n@ == "det"@
            + decimal((i + 1) as nat)),
        a.soft_detectors <= i < a.soft_detectors + a.soft_motors ==> (step matches
            SetupStep::SoftMotor(n) && n@ == "m"@ + decimal((i - a.soft_detectors + 1) as nat)),
        i == a.soft_detectors + a.soft_motors ==> (step matches SetupStep::Plan(n) && n@
            == "count"@),
        forall|k: int|
            0 <= k < a.ca_motor@.len() && i == a.soft_detectors + a.soft_motors + 1 + k ==> (
            match step {
                SetupStep::CaMotor(m) => (#[trigger] a.ca_motor@[k])@ == m.name@ + seq!['=']
                    + m.val_pv@ + seq![','] + m.rbv_pv@,
                SetupStep::Fail(_) => true,
                _ => false,
            }),
        forall|k: int|
            0 <= k < a.ca_detector@.len() && i == a.soft_detectors + a.soft_motors + 1
                + a.ca_motor@.len() + k ==> (match step {
                SetupStep::CaDetector(d) => (#[trigger] a.ca_detector@[k])@ == d.name@ + seq!['=']
                    + d.pv@,
                SetupStep::Fail(_) => true,
                _ => false,
            }),
        step is Serve <==> i > a.soft_detectors + a.soft_motors + a.ca_motor@.len()
            + a.ca_detector@.len(),
{
    assert forall|k: int|
        0 <= k < a.ca_motor@.len() && i == a.soft_detectors + a.soft_motors + 1 + k implies (
    match step {
        SetupStep::CaMotor(m) => (#[trigger] a.ca_motor@[k])@ == m.name@ + seq!['='] + m.val_pv@
            + seq![','] + m.rbv_pv@,
        SetupStep::Fail(_) => true,
        _ => false,
    }) by {
        let s = a.ca_motor@[k]@;
        lemma_find_char(s, '=');
        if let Some((name, pvs)) = split_at_char(s, '=') {
            lemma_find_char(pvs, ',');
            if let Some((val, rbv)) = split_at_char(pvs, ',') {
                assert(s =~= name + seq!['='] + val + seq![','] + rbv);
            }
        }
    }
    assert forall|k: int|
        0 <= k < a.ca_detector@.len() && i == a.soft_detectors + a.soft_motors + 1
            + a.ca_motor@.len() + k implies (match step {
        SetupStep::CaDetector(d) => (#[trigger] a.ca_detector@[k])@ == d.name@ + seq!['='] + d.pv@,
        SetupStep::Fail(_) => true,
        _ => false,
    }) by {
        let s = a.ca_detector@[k]@;
        lemma_find_char(s, '=');
        if let Some((name, pv)) = split_at_char(s, '=') {
            assert(s =~= name + seq!['='] + pv);
        }
    }
}

/// The checkpoint file that was given is used, and the default only without one: below the state
/// directory where there is one, else below the home directory.
pub proof fn law_given_checkpoint_file_is_used(
    a: &ManagerArgs,
    state: Option<String>,
    home: Option<String>,
    p: String,
)
    requires
        call_ensures(ManagerArgs::checkpoint_path, (a, state, home), p),
    ensures
        a.checkpoints matches Some(c) ==> p@ == c@,
        a.checkpoints is None ==> (state matches Some(s) ==> s@.is_prefix_of(p@)),
        a.checkpoints is None && state is None ==> (home matches Some(h) ==> h@.is_prefix_of(p@)),
        a.checkpoints is None && state is None && home is None ==> p@
            == ".cirrus_checkpoints.jsonl"@,
{
}

} // verus!
