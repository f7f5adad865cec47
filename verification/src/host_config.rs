//! The configuration that the host keeps for all its browsers.

use vstd::prelude::*;

use crate::servo_bus::{is_unicast_servo_id, unicast};
use crate::text::{
    all_space, is_bare, trim, trimmed, trimming_keeps_what_is_between_space,
};

verus! {

/// How many position servos a configuration has.
pub const JOINT_COUNT: usize = 6;

pub const ENDPOINT_REQUIRED: &'static str = "MCU host and TCP port are required";

pub const MOTOR_ID_INVALID: &'static str = "motor ID must be between 1 and 253";

pub const MOTOR_SPEED_INVALID: &'static str = "motor speed percentage must be between 0 and 100";

pub const JOINTS_REQUIRED: &'static str = "exactly six position servo configurations are required";

pub const JOINT_ID_INVALID: &'static str = "servo IDs must be between 1 and 253";

pub const JOINT_TORQUE_INVALID: &'static str = "holding torque percentage must be between 0 and 100";

#[derive(Debug)]
pub struct EndpointConfig {
    pub host: String,
    pub port: u16,
}

#[derive(Clone, Copy, Debug, PartialEq, Eq, Structural)]
pub struct MotorConfig {
    pub id: u8,
    pub enabled: bool,
    pub speed_percent: u8,
    pub acceleration: u8,
}

#[derive(Clone, Copy, Debug, PartialEq, Eq, Structural)]
pub struct JointConfig {
    pub id: u8,
    pub enabled: bool,
    pub acceleration: u8,
    pub torque_percent: u8,
}

#[derive(Debug)]
pub struct HostConfig {
    pub endpoint: EndpointConfig,
    pub motor: MotorConfig,
    pub joints: Vec<JointConfig>,
}

#[verifier::ext_equal]
pub struct ConfigView {
    pub host: Seq<char>,
    pub port: u16,
    pub motor: MotorConfig,
    pub joints: Seq<JointConfig>,
}

impl View for HostConfig {
    type V = ConfigView;

    open spec fn view(&self) -> ConfigView {
        ConfigView {
            host: self.endpoint.host@,
            port: self.endpoint.port,
            motor: self.motor,
            joints: self.joints@,
        }
    }
}

/// The configuration of a host that has none stored.
pub open spec fn default_config() -> ConfigView {
    ConfigView {
        host: "192.168.1.123"@,
        port: 3333,
        motor: MotorConfig { id: 1, enabled: true, speed_percent: 25, acceleration: 20 },
        joints: Seq::new(
            JOINT_COUNT as nat,
            |i: int|
                JointConfig {
                    id: (i + 2) as u8,
                    enabled: true,
                    acceleration: 20,
                    torque_percent: 100,
                },
        ),
    }
}

impl Default for HostConfig {
    fn default() -> (config: Self)
        ensures
            config@ == default_config(),
    {
        let mut joints: Vec<JointConfig> = Vec::new();
        let mut id: u8 = 2;
        while id <= 7
            invariant
                2 <= id <= 8,
                joints@ == default_config().joints.take(id - 2),
            decreases 8 - id,
        {
            joints.push(JointConfig { id, enabled: true, acceleration: 20, torque_percent: 100 });
            proof {
                assert(joints@ =~= default_config().joints.take(id - 1));
            }
            id += 1;
        }
        proof {
            assert(default_config().joints.take(6) =~= default_config().joints);
        }
        HostConfig {
            endpoint: EndpointConfig { host: "192.168.1.123".to_owned(), port: 3333 },
            motor: MotorConfig { id: 1, enabled: true, speed_percent: 25, acceleration: 20 },
            joints,
        }
    }
}

/// What is wrong with a position servo.
pub open spec fn joint_fault(joint: JointConfig) -> Option<Seq<char>> {
    if !unicast(joint.id) {
        Some(JOINT_ID_INVALID@)
    } else if joint.torque_percent > 100 {
        Some(JOINT_TORQUE_INVALID@)
    } else {
        None
    }
}

/// What is wrong with the first faulty one of some position servos.
pub open spec fn joints_fault(joints: Seq<JointConfig>) -> Option<Seq<char>>
    decreases joints.len(),
{
    if joints.len() == 0 {
        None
    } else if joint_fault(joints[0]) is Some {
        joint_fault(joints[0])
    } else {
        joints_fault(joints.drop_first())
    }
}

/// What is wrong with a configuration.
pub open spec fn config_fault(config: ConfigView) -> Option<Seq<char>> {
    if trimmed(config.host).len() == 0 || config.port == 0 {
        Some(ENDPOINT_REQUIRED@)
    } else if !unicast(config.motor.id) {
        Some(MOTOR_ID_INVALID@)
    } else if config.motor.speed_percent > 100 {
        Some(MOTOR_SPEED_INVALID@)
    } else if config.joints.len() != JOINT_COUNT {
        Some(JOINTS_REQUIRED@)
    } else {
        joints_fault(config.joints)
    }
}

/// Whether a verdict says that nothing, or that the given thing, is wrong.
pub open spec fn verdict_is(verdict: Result<(), String>, fault: Option<Seq<char>>) -> bool {
    match verdict {
        Ok(_) => fault is None,
        Err(message) => fault == Some(message@),
    }
}

/// Checks a configuration.
pub fn validate_host_config(config: &HostConfig) -> (verdict: Result<(), String>)
    ensures
        verdict_is(verdict, config_fault(config@)),
{
    let host = trim(config.endpoint.host.as_str());
    if host.unicode_len() == 0 || config.endpoint.port == 0 {
        return Err(ENDPOINT_REQUIRED.to_owned());
    }
    if !is_unicast_servo_id(config.motor.id) {
        return Err(MOTOR_ID_INVALID.to_owned());
    }
    if config.motor.speed_percent > 100 {
        return Err(MOTOR_SPEED_INVALID.to_owned());
    }
    if config.joints.len() != JOINT_COUNT {
        return Err(JOINTS_REQUIRED.to_owned());
    }
    let mut index: usize = 0;
    proof {
        assert(config.joints@.skip(0) =~= config.joints@);
    }
    while index < config.joints.len()
        invariant
            index <= config.joints@.len(),
            config_fault(config@) == joints_fault(config.joints@.skip(index as int)),
        decreases config.joints@.len() - index,
    {
        let joint = config.joints[index];
        proof {
            let rest = config.joints@.skip(index as int);
            assert(rest[0] == joint);
            assert(rest.drop_first() =~= config.joints@.skip(index + 1));
        }
        if !is_unicast_servo_id(joint.id) {
            return Err(JOINT_ID_INVALID.to_owned());
        }
        if joint.torque_percent > 100 {
            return Err(JOINT_TORQUE_INVALID.to_owned());
        }
        index += 1;
    }
    Ok(())
}

/// A configuration whose host name has no white space around it.
pub open spec fn with_trimmed_host(config: ConfigView) -> ConfigView {
    ConfigView { host: trimmed(config.host), ..config }
}

/// The configuration that replaces the stored one, where a browser sends `config`; otherwise what
/// is wrong with it.
pub fn put_config(config: HostConfig) -> (accepted: Result<HostConfig, String>)
    ensures
        match accepted {
            Ok(accepted) => config_fault(with_trimmed_host(config@)) is None && accepted@
                == with_trimmed_host(config@),
            Err(message) => config_fault(with_trimmed_host(config@)) == Some(message@),
        },
{
    let host = trim(config.endpoint.host.as_str()).to_owned();
    let config = HostConfig {
        endpoint: EndpointConfig { host, port: config.endpoint.port },
        motor: config.motor,
        joints: config.joints,
    };
    match validate_host_config(&config) {
        Ok(()) => Ok(config),
        Err(message) => Err(message),
    }
}

/// What was found where the configuration is stored.
#[derive(Debug)]
pub enum SavedConfig {
    /// There is no file.
    Missing,
    /// The file cannot be read, for the given reason.
    Unreadable(String),
    /// The file is no configuration, for the given reason.
    Unusable(String),
    Parsed(HostConfig),
}

/// Why a stored configuration is not used.
#[derive(Debug)]
pub enum ConfigNotice {
    /// It could not be read, which is an error.
    Unreadable(String),
    /// It is ignored with a warning.
    Ignored(String),
}

/// The configuration that a host starts with, and why the stored one is not used, if it is there.
pub fn load_host_config(saved: SavedConfig) -> (loaded: (HostConfig, Option<ConfigNotice>))
    ensures
        match saved {
            SavedConfig::Missing => loaded.0@ == default_config() && loaded.1 is None,
            SavedConfig::Unreadable(reason) => loaded.0@ == default_config() && (
            loaded.1 matches Some(ConfigNotice::Unreadable(message)) && message@ == reason@),
            SavedConfig::Unusable(reason) => loaded.0@ == default_config() && (
            loaded.1 matches Some(ConfigNotice::Ignored(message)) && message@ == reason@),
            SavedConfig::Parsed(config) => match config_fault(config@) {
                None => loaded.0@ == config@ && loaded.1 is None,
                Some(fault) => loaded.0@ == default_config() && (loaded.1 matches Some(
                    ConfigNotice::Ignored(message),
                ) && message@ == fault),
            },
        },
{
    match saved {
        SavedConfig::Missing => (HostConfig::default(), None),
        SavedConfig::Unreadable(reason) => (
            HostConfig::default(),
            Some(ConfigNotice::Unreadable(reason)),
        ),
        SavedConfig::Unusable(reason) => (
            HostConfig::default(),
            Some(ConfigNotice::Ignored(reason)),
        ),
        SavedConfig::Parsed(config) => match validate_host_config(&config) {
            Ok(()) => (config, None),
            Err(message) => (HostConfig::default(), Some(ConfigNotice::Ignored(message))),
        },
    }
}

/// The configuration of a host that has none stored is a valid one.
pub proof fn the_default_is_valid()
    ensures
        config_fault(default_config()) is None,
        with_trimmed_host(default_config()) == default_config(),
{
    let host = "192.168.1.123"@;
    reveal_strlit("192.168.1.123");
    assert(trimmed(host) == host);
    valid_joints_have_no_fault(default_config().joints);
}

proof fn valid_joints_have_no_fault(joints: Seq<JointConfig>)
    requires
        forall|i: int| 0 <= i < joints.len() ==> joint_fault(#[trigger] joints[i]) is None,
    ensures
        joints_fault(joints) is None,
    decreases joints.len(),
{
    if joints.len() > 0 {
        let rest = joints.drop_first();
        assert forall|i: int| 0 <= i < rest.len() implies joint_fault(#[trigger] rest[i]) is None by {
            assert(rest[i] == joints[i + 1]);
        }
        valid_joints_have_no_fault(rest);
    }
}

/// A configuration is valid exactly if its endpoint, its motor and each of its six position servos
/// are.
pub proof fn valid_configurations(config: ConfigView)
    ensures
        config_fault(config) is None <==> trimmed(config.host).len() > 0 && config.port != 0
            && unicast(config.motor.id) && config.motor.speed_percent <= 100 && config.joints.len()
            == JOINT_COUNT && (forall|i: int|
            0 <= i < config.joints.len() ==> unicast((#[trigger] config.joints[i]).id)
                && config.joints[i].torque_percent <= 100),
{
    faultless_joints_are_valid(config.joints);
    if forall|i: int|
        0 <= i < config.joints.len() ==> unicast((#[trigger] config.joints[i]).id)
            && config.joints[i].torque_percent <= 100 {
        valid_joints_have_no_fault(config.joints);
    }
}

proof fn faultless_joints_are_valid(joints: Seq<JointConfig>)
    ensures
        joints_fault(joints) is None ==> forall|i: int|
            0 <= i < joints.len() ==> unicast((#[trigger] joints[i]).id)
                && joints[i].torque_percent <= 100,
    decreases joints.len(),
{
    if joints.len() > 0 && joints_fault(joints) is None {
        let rest = joints.drop_first();
        faultless_joints_are_valid(rest);
        assert forall|i: int| 0 <= i < joints.len() implies unicast((#[trigger] joints[i]).id)
            && joints[i].torque_percent <= 100 by {
            if i > 0 {
                assert(rest[i - 1] == joints[i]);
            }
        }
    }
}

/// What a browser stored is what the next start loads: a configuration is as valid after it was
/// trimmed as before, and a stored one is not changed by storing it again.
pub proof fn stored_configurations_are_loaded(config: ConfigView)
    ensures
        config_fault(with_trimmed_host(config)) == config_fault(config),
        with_trimmed_host(with_trimmed_host(config)) == with_trimmed_host(config),
{
    crate::text::trimming_is_idempotent(config.host);
}

/// Whether a position servo can be configured so: a single servo with a torque of at most 100
/// percent.
pub open spec fn is_usable(joint: JointConfig) -> bool {
    0 < joint.id < 254 && joint.torque_percent < 101
}

/// A configuration is faulty for the first of these: no host or port, the motor's address, its
/// speed, the number of position servos, and the address or the torque of the first faulty one.
/// Without any of them it is valid.
pub proof fn faults_are_named_in_order(config: ConfigView, at: int)
    requires
        0 <= at <= config.joints.len(),
        forall|i: int| 0 <= i < at ==> is_usable(#[trigger] config.joints[i]),
        at < config.joints.len() ==> !is_usable(config.joints[at]),
    ensures
        ({
            let endpoint = !all_space(config.host) && config.port > 0;
            let motor = endpoint && 0 < config.motor.id < 254;
            let speed = motor && config.motor.speed_percent < 101;
            let six = speed && config.joints.len() == 6;
            let fault = config_fault(config);
            &&& !endpoint ==> fault == Some("MCU host and TCP port are required"@)
            &&& endpoint && !motor ==> fault == Some("motor ID must be between 1 and 253"@)
            &&& motor && !speed ==> fault == Some(
                "motor speed percentage must be between 0 and 100"@,
            )
            &&& speed && !six ==> fault == Some(
                "exactly six position servo configurations are required"@,
            )
            &&& six && at < 6 ==> fault == Some(
                if 0 < config.joints[at].id < 254 {
                    "holding torque percentage must be between 0 and 100"@
                } else {
                    "servo IDs must be between 1 and 253"@
                },
            )
            &&& six && at == 6 ==> fault is None
        }),
{
    blank_hosts_are_empty(config.host);
    first_faults_are_found(config.joints, at);
}

proof fn blank_hosts_are_empty(host: Seq<char>)
    ensures
        trimmed(host).len() == 0 <==> all_space(host),
{
    let bounds = crate::text::trimming_removes_outer_space(host);
    if all_space(host) {
        let none = Seq::<char>::empty();
        trimming_keeps_what_is_between_space(host, none, none);
        assert(host + none + none =~= host);
    }
}

proof fn first_faults_are_found(joints: Seq<JointConfig>, at: int)
    requires
        0 <= at <= joints.len(),
        forall|i: int| 0 <= i < at ==> is_usable(#[trigger] joints[i]),
        at < joints.len() ==> !is_usable(joints[at]),
    ensures
        at == joints.len() ==> joints_fault(joints) is None,
        at < joints.len() ==> joints_fault(joints) == joint_fault(joints[at]),
    decreases joints.len(),
{
    if at > 0 {
        let rest = joints.drop_first();
        assert(is_usable(joints[0]));
        assert forall|i: int| 0 <= i < at - 1 implies is_usable(#[trigger] rest[i]) by {
            assert(rest[i] == joints[i + 1]);
        }
        first_faults_are_found(rest, at - 1);
    }
}

/// A configuration is stored without the white space around the host's name, and otherwise as it
/// is.
pub proof fn configurations_are_stored_as_they_are(
    config: ConfigView,
    left: Seq<char>,
    host: Seq<char>,
    right: Seq<char>,
)
    requires
        config.host == left + host + right,
        all_space(left),
        all_space(right),
        is_bare(host),
    ensures
        ({
            let stored = with_trimmed_host(config);
            &&& stored.host == host
            &&& stored.port == config.port
            &&& stored.motor == config.motor
            &&& stored.joints == config.joints
        }),
{
    trimming_keeps_what_is_between_space(left, host, right);
}

/// A host without a stored configuration has the motor at address 1 and six position servos at the
/// addresses after it.
pub proof fn the_default_has_seven_servos()
    ensures
        ({
            let config = default_config();
            &&& config.host == "192.168.1.123"@ && config.port == 3333
            &&& config.motor == (MotorConfig {
                id: 1,
                enabled: true,
                speed_percent: 25,
                acceleration: 20,
            })
            &&& config.joints.len() == 6
            &&& forall|i: int|
                0 <= i < 6 ==> #[trigger] config.joints[i] == (JointConfig {
                    id: (i + 2) as u8,
                    enabled: true,
                    acceleration: 20,
                    torque_percent: 100,
                })
        }),
{
}

/// What holds of the view of a configuration holds of its fields.
pub proof fn configurations_are_seen_field_by_field(config: HostConfig)
    ensures
        config@.host == config.endpoint.host@,
        config@.port == config.endpoint.port,
        config@.motor == config.motor,
        config@.joints == config.joints@,
{
}

} // verus!
