//! Normalized battery levels, the outbound messages that carry them, and one
//! poll cycle from the two dumps to the messages.

use crate::extract::{
    controllers_reading, extract_controllers, extract_headset, headset_reading, ExtractError,
};
use crate::source::Subsystem;
use vstd::prelude::*;

verus! {

/// Raw reading at which the headset's battery is full.
pub const HEADSET_SCALE: u8 = 100;

/// Raw reading at which a controller's battery is full.
pub const CONTROLLER_SCALE: u8 = 5;

/// Seconds between two poll cycles.
pub const POLL_INTERVAL_SECS: u64 = 60;

/// Address of the message that carries the headset's level.
pub const HEADSET_ADDRESS: &'static str = "/avatar/parameters/BatteryLevelHeadset";

/// Address of the message that carries the left controller's level.
pub const LEFT_ADDRESS: &'static str = "/avatar/parameters/BatteryLevelControllerLeft";

/// Address of the message that carries the right controller's level.
pub const RIGHT_ADDRESS: &'static str = "/avatar/parameters/BatteryLevelControllerRight";

/// A normalized battery level, kept exactly as the fraction `raw / scale`.
/// A reading above the scale gives a level above one: nothing is clamped.
#[derive(Clone, Copy, Debug, PartialEq, Eq, Structural)]
pub struct Level {
    pub raw: u8,
    pub scale: u8,
}

impl Level {
    /// A level has a scale to divide by.
    pub open spec fn wf(self) -> bool {
        self.scale > 0
    }

    /// Whether the level is above one, the raw reading being above its scale.
    pub open spec fn above_one(self) -> bool {
        self.raw > self.scale
    }
}

/// The three levels of one poll cycle.
#[derive(Clone, Copy, Debug, PartialEq, Eq, Structural)]
pub struct BatteryLevels {
    pub headset: Level,
    pub left_controller: Level,
    pub right_controller: Level,
}

/// One message for the receiver: an address and the level it carries.
#[derive(Clone, Copy, Debug, PartialEq, Eq)]
pub struct OutboundMessage {
    pub address: &'static str,
    pub level: Level,
}

impl View for OutboundMessage {
    type V = (Seq<char>, Level);

    open spec fn view(&self) -> (Seq<char>, Level) {
        (self.address@, self.level)
    }
}

/// Why a poll cycle sends nothing.
#[derive(Clone, Copy, Debug, PartialEq, Eq, Structural)]
pub enum CycleError {
    /// The dump of a subsystem could not be had.
    Subprocess(Subsystem),
    /// A dump was had, and a reading could not be taken from it.
    Extract(ExtractError),
}

/// The text of a dump, where it could be had.
pub open spec fn dump_view(dump: Option<&str>) -> Option<Seq<char>> {
    match dump {
        Some(text) => Some(text@),
        None => None,
    }
}

/// The views of a sequence of messages.
pub open spec fn message_views(ms: Seq<OutboundMessage>) -> Seq<(Seq<char>, Level)> {
    ms.map_values(|m: OutboundMessage| m@)
}

/// The levels that three raw readings stand for.
pub open spec fn normalized(headset: u8, left: u8, right: u8) -> BatteryLevels {
    BatteryLevels {
        headset: Level { raw: headset, scale: HEADSET_SCALE },
        left_controller: Level { raw: left, scale: CONTROLLER_SCALE },
        right_controller: Level { raw: right, scale: CONTROLLER_SCALE },
    }
}

/// The levels that a battery dump and a controller-service dump report: the
/// headset is read first, then the left and the right controller, and the
/// first failure is the result.
pub open spec fn levels_reading(battery: Seq<char>, controllers: Seq<char>) -> Result<
    BatteryLevels,
    ExtractError,
> {
    match headset_reading(battery) {
        Err(e) => Err(e),
        Ok(headset) => match controllers_reading(controllers) {
            Err(e) => Err(e),
            Ok((left, right)) => Ok(normalized(headset, left, right)),
        },
    }
}

/// The three messages for a set of levels: headset, left, right.
pub open spec fn messages_of(levels: BatteryLevels) -> Seq<(Seq<char>, Level)> {
    seq![
        (HEADSET_ADDRESS@, levels.headset),
        (LEFT_ADDRESS@, levels.left_controller),
        (RIGHT_ADDRESS@, levels.right_controller),
    ]
}

/// The levels of one poll cycle, each dump being present or missing. The
/// battery dump is looked at first and read for the headset, then the
/// controller-service dump; the first failure is the result.
pub open spec fn cycle_levels(battery: Option<Seq<char>>, controllers: Option<Seq<char>>) -> Result<
    BatteryLevels,
    CycleError,
> {
    match battery {
        None => Err(CycleError::Subprocess(Subsystem::Battery)),
        Some(b) => match headset_reading(b) {
            Err(e) => Err(CycleError::Extract(e)),
            Ok(headset) => match controllers {
                None => Err(CycleError::Subprocess(Subsystem::ControllerService)),
                Some(c) => match controllers_reading(c) {
                    Err(e) => Err(CycleError::Extract(e)),
                    Ok((left, right)) => Ok(normalized(headset, left, right)),
                },
            },
        },
    }
}

/// What one poll cycle sends: the three messages, or nothing where a dump
/// or a reading is missing.
pub open spec fn cycle_messages(battery: Option<Seq<char>>, controllers: Option<Seq<char>>) -> Seq<
    (Seq<char>, Level),
> {
    match cycle_levels(battery, controllers) {
        Ok(levels) => messages_of(levels),
        Err(_) => Seq::empty(),
    }
}

/// Normalizing keeps each raw reading over its own scale and clamps
/// nothing: a reading above the scale gives a level above one.
pub proof fn lemma_normalized_is_unclamped(headset: u8, left: u8, right: u8)
    ensures
        normalized(headset, left, right).headset == (Level { raw: headset, scale: 100 }),
        normalized(headset, left, right).left_controller == (Level { raw: left, scale: 5 }),
        normalized(headset, left, right).right_controller == (Level { raw: right, scale: 5 }),
        normalized(headset, left, right).headset.above_one() <==> headset > 100,
        normalized(headset, left, right).left_controller.above_one() <==> left > 5,
        normalized(headset, left, right).right_controller.above_one() <==> right > 5,
{
}

/// A poll cycle sends all three messages, in the fixed order and to the
/// fixed addresses, or none at all; it sends them exactly where both dumps
/// are present and all three readings succeed, and each message then
/// carries its own reading.
pub proof fn lemma_cycle_sends_three_or_none(
    battery: Option<Seq<char>>,
    controllers: Option<Seq<char>>,
)
    ensures
        cycle_messages(battery, controllers).len() == 3 || cycle_messages(
            battery,
            controllers,
        ).len() == 0,
        cycle_messages(battery, controllers).len() == 3 <==> {
            &&& battery is Some
            &&& controllers is Some
            &&& headset_reading(battery->Some_0) is Ok
            &&& controllers_reading(controllers->Some_0) is Ok
        },
        cycle_messages(battery, controllers).len() == 3 ==> {
            let sent = cycle_messages(battery, controllers);
            let headset = headset_reading(battery->Some_0)->Ok_0;
            let sides = controllers_reading(controllers->Some_0)->Ok_0;
            &&& sent[0] == (HEADSET_ADDRESS@, Level { raw: headset, scale: 100 })
            &&& sent[1] == (LEFT_ADDRESS@, Level { raw: sides.0, scale: 5 })
            &&& sent[2] == (RIGHT_ADDRESS@, Level { raw: sides.1, scale: 5 })
        },
{
}

/// With both dumps present a poll cycle reads the levels that the two
/// dumps report.
pub proof fn lemma_cycle_reads_both_dumps(battery: Seq<char>, controllers: Seq<char>)
    ensures
        cycle_levels(Some(battery), Some(controllers)) == match levels_reading(
            battery,
            controllers,
        ) {
            Ok(levels) => Ok::<BatteryLevels, CycleError>(levels),
            Err(e) => Err(CycleError::Extract(e)),
        },
{
}

/// Normalizes three raw readings: the headset's over 100, each
/// controller's over 5. Nothing is clamped.
pub fn normalize(headset: u8, left: u8, right: u8) -> (levels: BatteryLevels)
    ensures
        levels == normalized(headset, left, right),
        levels.headset.wf() && levels.left_controller.wf() && levels.right_controller.wf(),
{
    BatteryLevels {
        headset: Level { raw: headset, scale: HEADSET_SCALE },
        left_controller: Level { raw: left, scale: CONTROLLER_SCALE },
        right_controller: Level { raw: right, scale: CONTROLLER_SCALE },
    }
}

/// Reads the three levels from a battery dump and a controller-service dump.
pub fn get_levels(battery_dump: &str, controller_dump: &str) -> (r: Result<
    BatteryLevels,
    ExtractError,
>)
    ensures
        r == levels_reading(battery_dump@, controller_dump@),
{
    let headset = match extract_headset(battery_dump) {
        Ok(v) => v,
        Err(e) => {
            return Err(e);
        },
    };
    match extract_controllers(controller_dump) {
        Ok((left, right)) => Ok(normalize(headset, left, right)),
        Err(e) => Err(e),
    }
}

/// The three messages that publish `levels`: headset, left controller,
/// right controller.
pub fn outbound_messages(levels: &BatteryLevels) -> (ms: Vec<OutboundMessage>)
    ensures
        message_views(ms@) == messages_of(*levels),
{
    let mut ms: Vec<OutboundMessage> = Vec::new();
    ms.push(OutboundMessage { address: HEADSET_ADDRESS, level: levels.headset });
    ms.push(OutboundMessage { address: LEFT_ADDRESS, level: levels.left_controller });
    ms.push(OutboundMessage { address: RIGHT_ADDRESS, level: levels.right_controller });
    assert(message_views(ms@) =~= messages_of(*levels));
    ms
}

/// One poll cycle on the two dumps, `None` standing for a dump that could
/// not be had: the messages to send, or the failure for which nothing is
/// sent.
pub fn poll_cycle(battery_dump: Option<&str>, controller_dump: Option<&str>) -> (r: Result<
    Vec<OutboundMessage>,
    CycleError,
>)
    ensures
        match cycle_levels(dump_view(battery_dump), dump_view(controller_dump)) {
            Ok(levels) => r is Ok && message_views(r->Ok_0@) == messages_of(levels),
            Err(e) => r == Err::<Vec<OutboundMessage>, CycleError>(e),
        },
        match r {
            Ok(ms) => message_views(ms@) == cycle_messages(
                dump_view(battery_dump),
                dump_view(controller_dump),
            ),
            Err(_) => cycle_messages(dump_view(battery_dump), dump_view(controller_dump)).len()
                == 0,
        },
{
    let battery = match battery_dump {
        Some(text) => text,
        None => {
            return Err(CycleError::Subprocess(Subsystem::Battery));
        },
    };
    let headset = match extract_headset(battery) {
        Ok(v) => v,
        Err(e) => {
            return Err(CycleError::Extract(e));
        },
    };
    let controllers = match controller_dump {
        Some(text) => text,
        None => {
            return Err(CycleError::Subprocess(Subsystem::ControllerService));
        },
    };
    match extract_controllers(controllers) {
        Ok((left, right)) => {
            let levels = normalize(headset, left, right);
            Ok(outbound_messages(&levels))
        },
        Err(e) => Err(CycleError::Extract(e)),
    }
}

} // verus!
