//! The traffic-light phase engine.
//!
//! A group of lights shares one phase: a colour and the seconds that remain
//! in it. Once per second every group is ticked; a group whose counter
//! reaches zero moves on to the next colour of the cycle
//! GREEN -> YELLOW -> RED -> GREEN and loads that colour's duration.

pub mod detail;
pub mod laws;

use vstd::prelude::*;

verus! {

/// The colour a group of lights shows.
#[derive(Clone, Copy, Debug, PartialEq, Eq, Structural)]
pub enum LightColor {
    UNKNOWN,
    RED,
    GREEN,
    YELLOW,
}

impl LightColor {
    /// The number that stands for this colour in configuration files and
    /// on the wire.
    pub open spec fn spec_code(self) -> u64 {
        match self {
            LightColor::UNKNOWN => 0,
            LightColor::RED => 1,
            LightColor::GREEN => 2,
            LightColor::YELLOW => 3,
        }
    }

    /// The colour that a number stands for; every number without a colour
    /// of its own means UNKNOWN.
    pub open spec fn spec_from_code(code: int) -> LightColor {
        if code == 1 {
            LightColor::RED
        } else if code == 2 {
            LightColor::GREEN
        } else if code == 3 {
            LightColor::YELLOW
        } else {
            LightColor::UNKNOWN
        }
    }

    /// The colour that follows this one when its time is up. UNKNOWN is
    /// never left.
    pub open spec fn successor(self) -> LightColor {
        match self {
            LightColor::GREEN => LightColor::YELLOW,
            LightColor::YELLOW => LightColor::RED,
            LightColor::RED => LightColor::GREEN,
            LightColor::UNKNOWN => LightColor::UNKNOWN,
        }
    }

    /// The number that stands for this colour in configuration files and
    /// on the wire.
    #[verifier::when_used_as_spec(spec_code)]
    pub fn code(self) -> (code: u64)
        ensures
            code == self.spec_code(),
    {
        match self {
            LightColor::UNKNOWN => 0,
            LightColor::RED => 1,
            LightColor::GREEN => 2,
            LightColor::YELLOW => 3,
        }
    }

    /// The colour that a number stands for; every number without a colour
    /// of its own means UNKNOWN.
    pub fn from_code(code: i64) -> (color: LightColor)
        ensures
            color == Self::spec_from_code(code as int),
    {
        if code == 1 {
            LightColor::RED
        } else if code == 2 {
            LightColor::GREEN
        } else if code == 3 {
            LightColor::YELLOW
        } else {
            LightColor::UNKNOWN
        }
    }
}

/// How long each colour lasts, in seconds.
#[derive(Clone, Copy, Debug, PartialEq, Eq, Structural)]
pub struct LightDuration {
    pub green: i64,
    pub red: i64,
    pub yellow: i64,
    pub unknown: i64,
}

impl LightDuration {
    /// The seconds that `color` lasts.
    pub open spec fn of(self, color: LightColor) -> i64 {
        match color {
            LightColor::RED => self.red,
            LightColor::GREEN => self.green,
            LightColor::YELLOW => self.yellow,
            LightColor::UNKNOWN => self.unknown,
        }
    }

    /// The table with the duration of the colour that `code` stands for
    /// replaced by `seconds`; a code without a colour changes nothing.
    pub open spec fn with_code(self, code: int, seconds: i64) -> LightDuration {
        if code == 2 {
            LightDuration { green: seconds, ..self }
        } else if code == 1 {
            LightDuration { red: seconds, ..self }
        } else if code == 3 {
            LightDuration { yellow: seconds, ..self }
        } else if code == 0 {
            LightDuration { unknown: seconds, ..self }
        } else {
            self
        }
    }

    /// Every colour of the cycle lasts at least one second.
    pub open spec fn cycle_is_positive(self) -> bool {
        self.green >= 1 && self.yellow >= 1 && self.red >= 1
    }
}

/// The phase of one group: its colour and the seconds left in it.
#[derive(Clone, Copy, Debug, PartialEq, Eq, Structural)]
pub struct LightStatus {
    pub color: LightColor,
    pub counter: i64,
}

impl LightStatus {
    /// The phase one second after `self`. A group on UNKNOWN whose counter
    /// stands at zero stays as it is; any other group has one second less
    /// left, and where that uses up its last second, a group on a colour of
    /// the cycle starts the next colour with its full duration.
    pub open spec fn ticked(self, durations: LightDuration) -> LightStatus {
        if self.color == LightColor::UNKNOWN && self.counter == 0 {
            self
        } else if self.counter - 1 == 0 {
            match self.color {
                LightColor::UNKNOWN => LightStatus { color: LightColor::UNKNOWN, counter: 0 },
                _ => LightStatus {
                    color: self.color.successor(),
                    counter: durations.of(self.color.successor()),
                },
            }
        } else {
            LightStatus { color: self.color, counter: (self.counter - 1) as i64 }
        }
    }

    /// The phase `seconds` ticks after `self`.
    pub open spec fn after(self, durations: LightDuration, seconds: nat) -> LightStatus
        decreases seconds,
    {
        if seconds == 0 {
            self
        } else {
            self.after(durations, (seconds - 1) as nat).ticked(durations)
        }
    }

    /// Lets one second pass. Returns whether the counter reached zero, which
    /// is when a group of a colour other than UNKNOWN changes colour. For a
    /// group on UNKNOWN whose counter stands at zero nothing happens.
    pub fn tick(&mut self, light_duration: &LightDuration) -> (expired: bool)
        requires
            old(self).counter > i64::MIN,
        ensures
            *final(self) == old(self).ticked(*light_duration),
            expired == (old(self).counter == 1),
    {
        if self.counter == 0 {
            match self.color {
                LightColor::UNKNOWN => {
                    return false;
                },
                _ => {},
            }
        }
        self.counter -= 1;
        if self.counter == 0 {
            match self.color {
                LightColor::GREEN => {
                    self.color = LightColor::YELLOW;
                    self.counter = light_duration.yellow;
                },
                LightColor::YELLOW => {
                    self.color = LightColor::RED;
                    self.counter = light_duration.red;
                },
                LightColor::RED => {
                    self.color = LightColor::GREEN;
                    self.counter = light_duration.green;
                },
                LightColor::UNKNOWN => (),
            };
            true
        } else {
            false
        }
    }
}

/// The seconds that `color` lasts according to `durations`.
pub fn get_duration(durations: &LightDuration, color: &LightColor) -> (seconds: i64)
    ensures
        seconds == durations.of(*color),
{
    match color {
        LightColor::RED => durations.red,
        LightColor::GREEN => durations.green,
        LightColor::YELLOW => durations.yellow,
        LightColor::UNKNOWN => durations.unknown,
    }
}

/// The colour a group starts on when the master group shows `color` with
/// `counter` seconds left.
pub open spec fn inverse_of(durations: LightDuration, color: LightColor, counter: i64) -> LightColor {
    match color {
        LightColor::RED => if counter > durations.yellow {
            LightColor::GREEN
        } else {
            LightColor::YELLOW
        },
        LightColor::GREEN => LightColor::RED,
        LightColor::YELLOW => LightColor::RED,
        LightColor::UNKNOWN => LightColor::UNKNOWN,
    }
}

/// The complementary colour for a group paired with one that shows `color`
/// with `counter` seconds left: against RED it is GREEN while more than a
/// yellow phase remains and YELLOW otherwise, against GREEN or YELLOW it is
/// RED, and against UNKNOWN it is UNKNOWN.
pub fn inverse_color(durations: &LightDuration, color: &LightColor, counter: i64) -> (inverse:
    LightColor)
    ensures
        inverse == inverse_of(*durations, *color, counter),
{
    match color {
        LightColor::RED => {
            if counter > durations.yellow {
                LightColor::GREEN
            } else {
                LightColor::YELLOW
            }
        },
        LightColor::GREEN => LightColor::RED,
        LightColor::YELLOW => LightColor::RED,
        LightColor::UNKNOWN => LightColor::UNKNOWN,
    }
}

/// Sets the duration of the colour that `init_color` stands for to
/// `counter` seconds. A number that stands for no colour changes nothing.
pub fn init_light_duration(durations: &mut LightDuration, init_color: i32, counter: i64)
    ensures
        *final(durations) == old(durations).with_code(init_color as int, counter),
{
    if init_color == 2 {
        durations.green = counter;
    } else if init_color == 1 {
        durations.red = counter;
    } else if init_color == 3 {
        durations.yellow = counter;
    } else if init_color == 0 {
        durations.unknown = counter;
    }
}

/// One light as it is reported: its id, the number of its colour and the
/// seconds that remain.
#[derive(Clone, Debug, PartialEq, Eq)]
pub struct Light {
    pub id: String,
    pub color: u64,
    pub remain: i64,
}

/// What a reported light says, with its id as a sequence of characters.
pub struct LightView {
    pub id: Seq<char>,
    pub color: u64,
    pub remain: i64,
}

impl View for Light {
    type V = LightView;

    open spec fn view(&self) -> LightView {
        LightView { id: self.id@, color: self.color, remain: self.remain }
    }
}

/// A named group of lights and the phase they share.
#[derive(Clone, Debug, PartialEq, Eq)]
pub struct LightGroup {
    pub name: String,
    pub lights: Vec<String>,
    pub status: LightStatus,
}

/// A group with its name and the ids of its lights as sequences of
/// characters.
pub struct GroupView {
    pub name: Seq<char>,
    pub lights: Seq<Seq<char>>,
    pub status: LightStatus,
}

impl GroupView {
    /// Whether the light `id` belongs to this group.
    pub open spec fn owns(self, id: Seq<char>) -> bool {
        self.lights.contains(id)
    }

    /// The lights of this group as they are reported, in the group's order.
    pub open spec fn report(self) -> Seq<LightView> {
        Seq::new(
            self.lights.len(),
            |i: int|
                LightView {
                    id: self.lights[i],
                    color: self.status.color.spec_code(),
                    remain: self.status.counter,
                },
        )
    }
}

/// The ids of `lights` as sequences of characters.
pub open spec fn ids_of(lights: Seq<String>) -> Seq<Seq<char>> {
    Seq::new(lights.len(), |i: int| lights[i]@)
}

impl View for LightGroup {
    type V = GroupView;

    open spec fn view(&self) -> GroupView {
        GroupView { name: self.name@, lights: ids_of(self.lights@), status: self.status }
    }
}

/// The state of the engine: the duration table and the groups in the order
/// of the configuration.
#[derive(Clone, Debug, PartialEq, Eq)]
pub struct Intersection {
    pub durations: LightDuration,
    pub groups: Vec<LightGroup>,
}

/// The engine's state over the views of its groups.
pub struct IntersectionView {
    pub durations: LightDuration,
    pub groups: Seq<GroupView>,
}

/// The views of `groups`, in order.
pub open spec fn groups_of(groups: Seq<LightGroup>) -> Seq<GroupView> {
    Seq::new(groups.len(), |i: int| groups[i]@)
}

impl View for Intersection {
    type V = IntersectionView;

    open spec fn view(&self) -> IntersectionView {
        IntersectionView { durations: self.durations, groups: groups_of(self.groups@) }
    }
}

/// The phase a group starts on: the master group takes the configured
/// colour for its full duration, every other group the inverse colour for
/// the full duration of that colour.
pub open spec fn initial_status(durations: LightDuration, color: LightColor, master: bool) -> LightStatus {
    if master {
        LightStatus { color, counter: durations.of(color) }
    } else {
        let inverse = inverse_of(durations, color, durations.of(color));
        LightStatus { color: inverse, counter: durations.of(inverse) }
    }
}

impl IntersectionView {
    /// The state in which every group that owns the light `id` has the
    /// phase `status`, and nothing else differs.
    pub open spec fn with_status_of(self, id: Seq<char>, status: LightStatus) -> IntersectionView {
        IntersectionView {
            durations: self.durations,
            groups: Seq::new(
                self.groups.len(),
                |i: int|
                    if self.groups[i].owns(id) {
                        GroupView { status, ..self.groups[i] }
                    } else {
                        self.groups[i]
                    },
            ),
        }
    }

    /// The state one second later: every group ticked once.
    pub open spec fn ticked(self) -> IntersectionView {
        IntersectionView {
            durations: self.durations,
            groups: Seq::new(
                self.groups.len(),
                |i: int|
                    GroupView {
                        status: self.groups[i].status.ticked(self.durations),
                        ..self.groups[i]
                    },
            ),
        }
    }

    /// Every group can be ticked without its counter leaving the range of
    /// the machine's integers.
    pub open spec fn can_tick(self) -> bool {
        forall|i: int| 0 <= i < self.groups.len() ==> (#[trigger] self.groups[i]).status.counter > i64::MIN
    }

    /// The lights of the first `n` groups as they are reported, group
    /// after group.
    pub open spec fn report_upto(self, n: int) -> Seq<LightView>
        decreases n,
    {
        if n <= 0 {
            Seq::empty()
        } else {
            self.report_upto(n - 1) + self.groups[n - 1].report()
        }
    }

    /// The lights of all groups as they are reported.
    pub open spec fn report(self) -> Seq<LightView> {
        self.report_upto(self.groups.len() as int)
    }

    /// The state after a rule change for the light `id`: the colour that
    /// `code` stands for lasts `remain` seconds from now on, and the groups
    /// that own the light show that colour with `remain` seconds left.
    pub open spec fn rule_changed(self, id: Seq<char>, code: u64, remain: i64) -> IntersectionView {
        IntersectionView {
            durations: self.durations.with_code(code as int, remain),
            ..self
        }.with_status_of(
            id,
            LightStatus { color: LightColor::spec_from_code(code as int), counter: remain },
        )
    }
}

/// Whether `id` is among `lights`.
pub fn owns_light(lights: &Vec<String>, id: &String) -> (found: bool)
    ensures
        found == ids_of(lights@).contains(id@),
{
    let mut j: usize = 0;
    while j < lights.len()
        invariant
            j <= lights.len(),
            forall|k: int| 0 <= k < j ==> ids_of(lights@)[k] != id@,
        decreases lights.len() - j,
    {
        if lights[j] == *id {
            assert(ids_of(lights@)[j as int] == id@);
            return true;
        }
        j += 1;
    }
    false
}

/// Gives the phase `init_color` with `remain` seconds left to every group
/// that owns the light `lgt_id`. Groups that do not own it keep their phase.
pub fn init_lgt_status(state: &mut Intersection, lgt_id: &str, init_color: LightColor, remain: i64)
    ensures
        final(state)@ == old(state)@.with_status_of(
            lgt_id@,
            LightStatus { color: init_color, counter: remain },
        ),
{
    let id: String = lgt_id.to_owned();
    let status = LightStatus { color: init_color, counter: remain };
    let mut i: usize = 0;
    while i < state.groups.len()
        invariant
            i <= state.groups.len(),
            id@ == lgt_id@,
            status == (LightStatus { color: init_color, counter: remain }),
            state.durations == old(state).durations,
            state.groups.len() == old(state).groups.len(),
            forall|k: int|
                0 <= k < i ==> (#[trigger] state.groups[k])@ == old(state)@.with_status_of(
                    lgt_id@,
                    status,
                ).groups[k],
            forall|k: int| i <= k < state.groups.len() ==> state.groups[k] == old(state).groups[k],
        decreases state.groups.len() - i,
    {
        if owns_light(&state.groups[i].lights, &id) {
            state.groups[i].status = status;
        }
        i += 1;
    }
    assert(state@.groups =~= old(state)@.with_status_of(lgt_id@, status).groups);
}

/// The views of `lights`, in order.
pub open spec fn lights_of(lights: Seq<Light>) -> Seq<LightView> {
    Seq::new(lights.len(), |i: int| lights[i]@)
}

/// Applies a rule change for the light `lgt_id`: from now on the colour
/// that `color` stands for lasts `remain` seconds, and every group that owns
/// the light shows that colour with `remain` seconds left. Groups that do
/// not own the light keep their phase until their next transition.
pub fn rule_change(state: &mut Intersection, lgt_id: &str, color: u64, remain: i64)
    ensures
        final(state)@ == old(state)@.rule_changed(lgt_id@, color, remain),
{
    if color <= 3 {
        init_light_duration(&mut state.durations, color as i32, remain);
    }
    let init_color = if color <= 3 {
        LightColor::from_code(color as i64)
    } else {
        LightColor::UNKNOWN
    };
    init_lgt_status(state, lgt_id, init_color, remain);
}

impl Intersection {
    /// An engine with the duration table `durations` and no group yet.
    pub fn new(durations: LightDuration) -> (state: Intersection)
        ensures
            state@.durations == durations,
            state@.groups == Seq::<GroupView>::empty(),
    {
        let state = Intersection { durations, groups: Vec::new() };
        assert(state@.groups =~= Seq::<GroupView>::empty());
        state
    }

    /// Adds the group `name` with the lights `lights` behind the groups
    /// that are there. The master group starts on `color` for that colour's
    /// full duration; any other group starts on the inverse phase.
    pub fn add_group(&mut self, name: String, lights: Vec<String>, master: bool, color: LightColor)
        ensures
            final(self)@.durations == old(self)@.durations,
            final(self)@.groups == old(self)@.groups.push(
                GroupView {
                    name: name@,
                    lights: ids_of(lights@),
                    status: initial_status(old(self)@.durations, color, master),
                },
            ),
    {
        let status = if master {
            LightStatus { color, counter: get_duration(&self.durations, &color) }
        } else {
            let in_color = inverse_color(
                &self.durations,
                &color,
                get_duration(&self.durations, &color),
            );
            LightStatus { color: in_color, counter: get_duration(&self.durations, &in_color) }
        };
        self.groups.push(LightGroup { name, lights, status });
        assert(self@.groups =~= old(self)@.groups.push(
            GroupView {
                name: name@,
                lights: ids_of(lights@),
                status: initial_status(old(self)@.durations, color, master),
            },
        ));
    }

    /// Whether every group can be ticked: no counter stands at the lowest
    /// number the machine can hold.
    pub fn can_tick(&self) -> (ok: bool)
        ensures
            ok == self@.can_tick(),
    {
        let mut i: usize = 0;
        while i < self.groups.len()
            invariant
                i <= self.groups.len(),
                forall|k: int| 0 <= k < i ==> (#[trigger] self@.groups[k]).status.counter > i64::MIN,
            decreases self.groups.len() - i,
        {
            if self.groups[i].status.counter == i64::MIN {
                assert(self@.groups[i as int].status.counter == i64::MIN);
                return false;
            }
            i += 1;
        }
        true
    }

    /// Lets one second pass for every group.
    pub fn tick(&mut self)
        requires
            old(self)@.can_tick(),
        ensures
            final(self)@ == old(self)@.ticked(),
    {
        let mut i: usize = 0;
        while i < self.groups.len()
            invariant
                i <= self.groups.len(),
                self.durations == old(self).durations,
                self.groups.len() == old(self).groups.len(),
                old(self)@.can_tick(),
                forall|k: int|
                    0 <= k < i ==> (#[trigger] self.groups[k])@ == old(self)@.ticked().groups[k],
                forall|k: int| i <= k < self.groups.len() ==> self.groups[k] == old(self).groups[k],
            decreases self.groups.len() - i,
        {
            assert(old(self)@.groups[i as int].status.counter > i64::MIN);
            let durations = self.durations;
            self.groups[i].status.tick(&durations);
            i += 1;
        }
        assert(self@.groups =~= old(self)@.ticked().groups);
    }

    /// The lights of all groups as they are reported: group after group,
    /// each light with the number of its group's colour and the seconds
    /// that remain.
    pub fn report(&self) -> (lights: Vec<Light>)
        ensures
            lights_of(lights@) == self@.report(),
    {
        let mut lights: Vec<Light> = Vec::new();
        let mut i: usize = 0;
        assert(lights_of(lights@) =~= self@.report_upto(0));
        while i < self.groups.len()
            invariant
                i <= self.groups.len(),
                lights_of(lights@) == self@.report_upto(i as int),
            decreases self.groups.len() - i,
        {
            let group = &self.groups[i];
            let ghost before = lights@;
            let mut j: usize = 0;
            while j < group.lights.len()
                invariant
                    j <= group.lights.len(),
                    i < self.groups.len(),
                    *group == self.groups[i as int],
                    lights_of(lights@) == lights_of(before) + group@.report().take(j as int),
                decreases group.lights.len() - j,
            {
                let light = Light {
                    id: group.lights[j].clone(),
                    color: group.status.color.code(),
                    remain: group.status.counter,
                };
                assert(light@ == group@.report()[j as int]) by {
                    assert(ids_of(group.lights@)[j as int] == group.lights[j as int]@);
                }
                let ghost sofar = lights@;
                lights.push(light);
                assert(lights_of(lights@) =~= lights_of(sofar).push(light@));
                assert(group@.report().take(j + 1) =~= group@.report().take(j as int).push(
                    group@.report()[j as int],
                ));
                j += 1;
            }
            assert(group@.report().take(j as int) =~= group@.report());
            assert(self@.groups[i as int] == group@);
            i += 1;
        }
        lights
    }
}

} // verus!
