//! Wave direction: a schedule of repeating spawn rules and the clock that
//! drives them.

use crate::error::CoreError;
use crate::timer::{
    lemma_expiries_are_counted, lemma_one_interval_one_expiry, lemma_tick_in_two_steps,
    RepeatingTimer,
};
use vstd::prelude::*;

verus! {

/// An enemy archetype. Never changed once the match is configured.
#[derive(Clone, Debug)]
pub struct SpawnTemplate {
    /// Identifier of the archetype and of its picture.
    pub asset: String,
    /// Movement speed, in millionths of a world unit per second.
    pub speed: u32,
    /// Health of a fresh enemy, in millionths of a health point.
    pub max_health: i64,
    /// Damage dealt per second, in millionths of a health point.
    pub damage_per_second: u32,
}

impl SpawnTemplate {
    /// An independent copy of the archetype.
    pub fn duplicate(&self) -> (copy: SpawnTemplate)
        ensures
            copy == *self,
    {
        SpawnTemplate {
            asset: self.asset.clone(),
            speed: self.speed,
            max_health: self.max_health,
            damage_per_second: self.damage_per_second,
        }
    }
}

/// One entry of the schedule as it is configured: the archetype is given by
/// name.
#[derive(Clone, Debug)]
pub struct WaveConfig {
    pub interval_ns: u64,
    pub batch_size: u32,
    pub archetype: String,
}

/// A request to bring `batch_size` enemies of one archetype into the match.
#[derive(Clone, Debug)]
pub struct SpawnRequest {
    pub template: SpawnTemplate,
    pub batch_size: u32,
}

/// One entry of the schedule: every time the timer expires, a batch of the
/// archetype is requested.
#[derive(Clone, Debug)]
pub struct WaveDefinition {
    pub timer: RepeatingTimer,
    pub batch_size: u32,
    pub template: SpawnTemplate,
}

impl WaveDefinition {
    /// The timer is sound and the batch holds at least one enemy.
    pub open spec fn wf(self) -> bool {
        self.timer.wf() && self.batch_size >= 1
    }

    /// The request that one expiry of this wave raises.
    pub open spec fn request(self) -> SpawnRequest {
        SpawnRequest { template: self.template, batch_size: self.batch_size }
    }

    /// The wave after `dt_ns` nanoseconds: only its timer has moved.
    pub open spec fn after(self, dt_ns: int) -> WaveDefinition {
        WaveDefinition {
            timer: self.timer.after(dt_ns),
            batch_size: self.batch_size,
            template: self.template,
        }
    }

    /// The requests that this wave raises while `dt_ns` nanoseconds pass: one
    /// for each expiry of its timer.
    pub open spec fn requests(self, dt_ns: int) -> Seq<SpawnRequest> {
        Seq::new(self.timer.expiries(dt_ns) as nat, |k: int| self.request())
    }
}

/// Index of the first template called `name`, or the number of templates if
/// there is none.
pub open spec fn template_index(templates: Seq<SpawnTemplate>, name: Seq<char>) -> int
    decreases templates.len(),
{
    if templates.len() == 0 {
        0
    } else if templates[0].asset@ == name {
        0
    } else {
        1 + template_index(templates.skip(1), name)
    }
}

/// What is wrong with a configured wave, if anything.
pub open spec fn config_fault(templates: Seq<SpawnTemplate>, config: WaveConfig) -> Option<CoreError> {
    if config.interval_ns == 0 || config.batch_size == 0 {
        Some(CoreError::InvariantViolation)
    } else if template_index(templates, config.archetype@) >= templates.len() {
        Some(CoreError::MissingTemplate)
    } else {
        None
    }
}

/// The wave that a faultless configuration entry describes, its timer at the
/// start of the first round.
pub open spec fn configured_wave(templates: Seq<SpawnTemplate>, config: WaveConfig) -> WaveDefinition {
    WaveDefinition {
        timer: RepeatingTimer { interval_ns: config.interval_ns, elapsed_ns: 0 },
        batch_size: config.batch_size,
        template: templates[template_index(templates, config.archetype@)],
    }
}

/// `director` is what a faultless configuration describes: one wave for each
/// entry, in the same order, and a clock at zero.
pub open spec fn configured(
    templates: Seq<SpawnTemplate>,
    configs: Seq<WaveConfig>,
    director: WaveDirector,
) -> bool {
    &&& director.clock_ns == 0
    &&& director.waves@.len() == configs.len()
    &&& forall|i: int|
        0 <= i < configs.len() ==> {
            &&& config_fault(templates, #[trigger] configs[i]).is_none()
            &&& director.waves@[i] == configured_wave(templates, configs[i])
        }
}

/// `error` is the fault of the first entry of the configuration that has one.
pub open spec fn first_fault_is(
    templates: Seq<SpawnTemplate>,
    configs: Seq<WaveConfig>,
    error: CoreError,
) -> bool {
    exists|i: int|
        {
            &&& 0 <= i < configs.len()
            &&& config_fault(templates, #[trigger] configs[i]) == Some(error)
            &&& forall|j: int| 0 <= j < i ==> config_fault(templates, #[trigger] configs[j]).is_none()
        }
}

/// All requests raised by a schedule while `dt_ns` nanoseconds pass, wave by
/// wave in the order of the schedule.
pub open spec fn requests_of(waves: Seq<WaveDefinition>, dt_ns: int) -> Seq<SpawnRequest>
    decreases waves.len(),
{
    if waves.len() == 0 {
        Seq::empty()
    } else {
        requests_of(waves.drop_last(), dt_ns) + waves.last().requests(dt_ns)
    }
}

pub proof fn lemma_template_index_bounds(templates: Seq<SpawnTemplate>, name: Seq<char>)
    ensures
        0 <= template_index(templates, name) <= templates.len(),
        template_index(templates, name) < templates.len() ==> templates[template_index(
            templates,
            name,
        )].asset@ == name,
        forall|j: int|
            0 <= j < template_index(templates, name) ==> (#[trigger] templates[j]).asset@ != name,
    decreases templates.len(),
{
    if templates.len() > 0 && templates[0].asset@ != name {
        let rest = templates.skip(1);
        lemma_template_index_bounds(rest, name);
        assert forall|j: int| 0 <= j < template_index(templates, name) implies (
        #[trigger] templates[j]).asset@ != name by {
            if j > 0 {
                assert(templates[j] == rest[j - 1]);
            }
        }
    }
}

/// Finds the first template called `name`.
pub fn find_template(templates: &Vec<SpawnTemplate>, name: &String) -> (found: Option<usize>)
    ensures
        match found {
            Some(i) => i == template_index(templates@, name@) && i < templates.len(),
            None => template_index(templates@, name@) >= templates.len(),
        },
{
    let mut i: usize = 0;
    while i < templates.len()
        invariant
            0 <= i <= templates.len(),
            forall|j: int| 0 <= j < i ==> (#[trigger] templates@[j]).asset@ != name@,
        decreases templates.len() - i,
    {
        if templates[i].asset == *name {
            proof {
                lemma_template_index_bounds(templates@, name@);
            }
            return Some(i);
        }
        i += 1;
    }
    proof {
        lemma_template_index_bounds(templates@, name@);
    }
    None
}

/// The schedule of a match with its clock.
///
/// The waves stand in the order in which they were configured. They are
/// independent of each other: each has a timer of its own.
#[derive(Clone, Debug)]
pub struct WaveDirector {
    /// Time spent in the current stretch of play.
    pub clock_ns: u64,
    pub waves: Vec<WaveDefinition>,
}

/// A schedule in which every wave has let `dt_ns` nanoseconds pass.
pub open spec fn waves_after(waves: Seq<WaveDefinition>, dt_ns: int) -> Seq<WaveDefinition> {
    Seq::new(waves.len(), |i: int| waves[i].after(dt_ns))
}

impl WaveDirector {
    /// Every wave of the schedule is sound.
    pub open spec fn wf(self) -> bool {
        forall|i: int| 0 <= i < self.waves@.len() ==> (#[trigger] self.waves@[i]).wf()
    }

    /// The clock can take `dt_ns` more nanoseconds, and every timer can count
    /// its expiries in that span.
    pub open spec fn can_advance(self, dt_ns: u64) -> bool {
        &&& self.clock_ns + dt_ns <= u64::MAX
        &&& forall|i: int|
            0 <= i < self.waves@.len() ==> (#[trigger] self.waves@[i]).timer.expiries(dt_ns as int)
                <= u32::MAX
    }

    /// Builds the schedule of a match from its configuration.
    ///
    /// Fails with the fault of the first entry that has one; otherwise every
    /// entry becomes a wave whose timer is at the start of its first round.
    pub fn from_config(templates: &Vec<SpawnTemplate>, configs: &Vec<WaveConfig>) -> (made: Result<
        WaveDirector,
        CoreError,
    >)
        ensures
            match made {
                Ok(director) => director.wf() && configured(templates@, configs@, director),
                Err(error) => first_fault_is(templates@, configs@, error),
            },
    {
        let mut waves: Vec<WaveDefinition> = Vec::new();
        let mut i: usize = 0;
        while i < configs.len()
            invariant
                0 <= i <= configs@.len(),
                waves@.len() == i,
                forall|j: int|
                    0 <= j < i ==> {
                        &&& config_fault(templates@, #[trigger] configs@[j]).is_none()
                        &&& waves@[j] == configured_wave(templates@, configs@[j])
                    },
                forall|j: int| 0 <= j < i ==> (#[trigger] waves@[j]).wf(),
            decreases configs@.len() - i,
        {
            let config = &configs[i];
            if config.interval_ns == 0 || config.batch_size == 0 {
                return Err(CoreError::InvariantViolation);
            }
            match find_template(templates, &config.archetype) {
                None => {
                    return Err(CoreError::MissingTemplate);
                },
                Some(at) => {
                    waves.push(
                        WaveDefinition {
                            timer: RepeatingTimer { interval_ns: config.interval_ns, elapsed_ns: 0 },
                            batch_size: config.batch_size,
                            template: templates[at].duplicate(),
                        },
                    );
                },
            }
            i += 1;
        }
        Ok(WaveDirector { clock_ns: 0, waves })
    }

    /// Decides [`WaveDirector::can_advance`].
    pub fn ready(&self, dt_ns: u64) -> (ok: bool)
        requires
            self.wf(),
        ensures
            ok == self.can_advance(dt_ns),
    {
        if dt_ns > u64::MAX - self.clock_ns {
            return false;
        }
        let mut i: usize = 0;
        while i < self.waves.len()
            invariant
                0 <= i <= self.waves@.len(),
                self.wf(),
                forall|j: int|
                    0 <= j < i ==> (#[trigger] self.waves@[j]).timer.expiries(dt_ns as int)
                        <= u32::MAX,
            decreases self.waves@.len() - i,
        {
            if !self.waves[i].timer.can_tick(dt_ns) {
                return false;
            }
            i += 1;
        }
        true
    }

    /// The requests that [`WaveDirector::advance`] would return for `dt_ns`
    /// nanoseconds. Nothing moves.
    pub fn pending(&self, dt_ns: u64) -> (requests: Vec<SpawnRequest>)
        requires
            self.wf(),
            self.can_advance(dt_ns),
        ensures
            requests@ == requests_of(self.waves@, dt_ns as int),
    {
        let mut requests: Vec<SpawnRequest> = Vec::new();
        let mut i: usize = 0;
        while i < self.waves.len()
            invariant
                0 <= i <= self.waves@.len(),
                self.wf(),
                self.can_advance(dt_ns),
                requests@ == requests_of(self.waves@.take(i as int), dt_ns as int),
            decreases self.waves@.len() - i,
        {
            let wave = &self.waves[i];
            let mut timer = wave.timer;
            let times = timer.tick(dt_ns);
            let ghost head = requests@;
            let mut k: u32 = 0;
            while k < times
                invariant
                    0 <= k <= times,
                    requests@ == head + Seq::new(k as nat, |n: int| wave.request()),
                decreases times - k,
            {
                requests.push(
                    SpawnRequest {
                        template: wave.template.duplicate(),
                        batch_size: wave.batch_size,
                    },
                );
                assert(requests@ =~= head + Seq::new((k + 1) as nat, |n: int| wave.request()));
                k += 1;
            }
            proof {
                let prefix = self.waves@.take(i as int + 1);
                assert(prefix.drop_last() =~= self.waves@.take(i as int));
                assert(prefix.last() == *wave);
                assert(requests@ =~= head + wave.requests(dt_ns as int));
            }
            i += 1;
        }
        proof {
            assert(self.waves@.take(self.waves@.len() as int) =~= self.waves@);
        }
        requests
    }

    /// Moves the clock forward by `dt_ns` nanoseconds and lets every wave's
    /// timer run for as long. Returns one request for each expiry, wave by
    /// wave in the order of the schedule.
    pub fn advance(&mut self, dt_ns: u64) -> (requests: Vec<SpawnRequest>)
        requires
            old(self).wf(),
            old(self).can_advance(dt_ns),
        ensures
            final(self).wf(),
            final(self).clock_ns == old(self).clock_ns + dt_ns,
            final(self).waves@ == waves_after(old(self).waves@, dt_ns as int),
            requests@ == requests_of(old(self).waves@, dt_ns as int),
    {
        let mut requests: Vec<SpawnRequest> = Vec::new();
        let count = self.waves.len();
        let mut i: usize = 0;
        while i < count
            invariant
                0 <= i <= count,
                count == old(self).waves@.len(),
                self.waves@.len() == count,
                self.clock_ns == old(self).clock_ns,
                old(self).wf(),
                old(self).can_advance(dt_ns),
                forall|j: int|
                    0 <= j < i ==> #[trigger] self.waves@[j] == old(self).waves@[j].after(
                        dt_ns as int,
                    ),
                forall|j: int| i <= j < count ==> #[trigger] self.waves@[j] == old(self).waves@[j],
                requests@ == requests_of(old(self).waves@.take(i as int), dt_ns as int),
            decreases count - i,
        {
            let ghost before = old(self).waves@[i as int];
            let wave = &mut self.waves[i];
            let times = wave.timer.tick(dt_ns);
            let ghost head = requests@;
            let mut k: u32 = 0;
            while k < times
                invariant
                    0 <= k <= times,
                    i < count,
                    self.waves@.len() == count,
                    self.waves@[i as int] == before.after(dt_ns as int),
                    requests@ == head + Seq::new(k as nat, |n: int| before.request()),
                decreases times - k,
            {
                let request = SpawnRequest {
                    template: self.waves[i].template.duplicate(),
                    batch_size: self.waves[i].batch_size,
                };
                requests.push(request);
                assert(requests@ =~= head + Seq::new((k + 1) as nat, |n: int| before.request()));
                k += 1;
            }
            proof {
                let prefix = old(self).waves@.take(i as int + 1);
                assert(prefix.drop_last() =~= old(self).waves@.take(i as int));
                assert(prefix.last() == before);
                assert(requests@ =~= head + before.requests(dt_ns as int));
            }
            i += 1;
        }
        proof {
            assert(old(self).waves@.take(count as int) =~= old(self).waves@);
            assert(self.waves@ =~= waves_after(old(self).waves@, dt_ns as int));
        }
        self.clock_ns = self.clock_ns + dt_ns;
        requests
    }

    /// Sets the clock back to zero. The waves and their timers stay as they
    /// are.
    pub fn reset(&mut self)
        ensures
            final(self).clock_ns == 0,
            final(self).waves == old(self).waves,
            old(self).wf() ==> final(self).wf(),
    {
        self.clock_ns = 0;
    }
}

/// When exactly one interval of a wave passes, the wave raises exactly one
/// request, for a batch of the configured size, and its timer stands where it
/// stood before; if it stood at the start of a round, the whole interval is
/// ahead of it again.
pub proof fn lemma_one_interval_one_request(wave: WaveDefinition)
    requires
        wave.wf(),
    ensures
        wave.requests(wave.timer.interval_ns as int) == seq![wave.request()],
        wave.requests(wave.timer.interval_ns as int).len() == 1,
        wave.requests(wave.timer.interval_ns as int)[0].batch_size == wave.batch_size,
        wave.after(wave.timer.interval_ns as int) == wave,
        wave.timer.elapsed_ns == 0 ==> wave.after(wave.timer.interval_ns as int).timer.remaining()
            == wave.timer.interval_ns,
{
    lemma_one_interval_one_expiry(wave.timer);
    assert(wave.requests(wave.timer.interval_ns as int) =~= seq![wave.request()]);
}

/// The number of requests that a schedule raises is the sum of its timers'
/// expiries.
pub open spec fn total_expiries(waves: Seq<WaveDefinition>, dt_ns: int) -> int
    decreases waves.len(),
{
    if waves.len() == 0 {
        0
    } else {
        total_expiries(waves.drop_last(), dt_ns) + waves.last().timer.expiries(dt_ns)
    }
}

/// A schedule of sound waves raises as many requests as its timers expire,
/// and none when no time passes.
pub proof fn lemma_request_count(waves: Seq<WaveDefinition>, dt_ns: int)
    requires
        forall|i: int| 0 <= i < waves.len() ==> (#[trigger] waves[i]).wf(),
        0 <= dt_ns,
    ensures
        requests_of(waves, dt_ns).len() == total_expiries(waves, dt_ns),
        dt_ns == 0 ==> requests_of(waves, dt_ns).len() == 0,
    decreases waves.len(),
{
    if waves.len() > 0 {
        let front = waves.drop_last();
        assert forall|i: int| 0 <= i < front.len() implies (#[trigger] front[i]).wf() by {
            assert(front[i] == waves[i]);
        }
        lemma_request_count(front, dt_ns);
        assert(waves.last().wf());
        lemma_expiries_are_counted(waves.last().timer, dt_ns);
    }
}

/// In a schedule, the span of one wave's interval makes that wave raise
/// exactly one request, for its own archetype and batch size, and leaves its
/// timer where it stood. A schedule of that wave alone raises this one request
/// and no other.
pub proof fn lemma_one_interval_in_schedule(waves: Seq<WaveDefinition>, at: int)
    requires
        forall|i: int| 0 <= i < waves.len() ==> (#[trigger] waves[i]).wf(),
        0 <= at < waves.len(),
    ensures
        waves[at].requests(waves[at].timer.interval_ns as int) == seq![waves[at].request()],
        waves_after(waves, waves[at].timer.interval_ns as int)[at] == waves[at],
        waves.len() == 1 ==> requests_of(waves, waves[at].timer.interval_ns as int) == seq![
            waves[at].request(),
        ],
{
    lemma_one_interval_one_request(waves[at]);
    if waves.len() == 1 {
        let dt = waves[at].timer.interval_ns as int;
        assert(waves.drop_last().len() == 0);
        assert(requests_of(waves.drop_last(), dt) =~= Seq::<SpawnRequest>::empty());
        assert(requests_of(waves, dt) =~= seq![waves[at].request()]);
    }
}

/// Time may pass over a schedule in one span or in two: every timer ends in
/// the same place, and the requests raised are as many in total.
pub proof fn lemma_advance_in_two_steps(waves: Seq<WaveDefinition>, first_ns: int, second_ns: int)
    requires
        forall|i: int| 0 <= i < waves.len() ==> (#[trigger] waves[i]).wf(),
        0 <= first_ns,
        0 <= second_ns,
    ensures
        forall|i: int|
            0 <= i < waves.len() ==> (#[trigger] waves_after(waves, first_ns)[i]).wf(),
        waves_after(waves_after(waves, first_ns), second_ns) == waves_after(
            waves,
            first_ns + second_ns,
        ),
        requests_of(waves, first_ns).len() + requests_of(
            waves_after(waves, first_ns),
            second_ns,
        ).len() == requests_of(waves, first_ns + second_ns).len(),
    decreases waves.len(),
{
    let moved = waves_after(waves, first_ns);
    assert forall|i: int| 0 <= i < waves.len() implies (#[trigger] moved[i]).wf() by {
        lemma_tick_in_two_steps(waves[i].timer, first_ns, second_ns);
    }
    assert(waves_after(moved, second_ns) =~= waves_after(waves, first_ns + second_ns)) by {
        assert forall|i: int| 0 <= i < waves.len() implies waves_after(moved, second_ns)[i]
            == waves_after(waves, first_ns + second_ns)[i] by {
            lemma_tick_in_two_steps(waves[i].timer, first_ns, second_ns);
        }
    }
    if waves.len() > 0 {
        let front = waves.drop_last();
        assert forall|i: int| 0 <= i < front.len() implies (#[trigger] front[i]).wf() by {
            assert(front[i] == waves[i]);
        }
        lemma_advance_in_two_steps(front, first_ns, second_ns);
        assert(moved.drop_last() =~= waves_after(front, first_ns));
        let last = waves.last();
        assert(moved.last() == last.after(first_ns));
        lemma_tick_in_two_steps(last.timer, first_ns, second_ns);
        lemma_expiries_are_counted(last.timer, first_ns);
        lemma_expiries_are_counted(last.after(first_ns).timer, second_ns);
        lemma_expiries_are_counted(last.timer, first_ns + second_ns);
    }
}

} // verus!
