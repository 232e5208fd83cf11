//! Progress of the player through the waves of an arena.
//!
//! A wave holds a number of enemies, of which only some are alive at a time.
//! When the last wave is over, the arena is finished.

use vstd::prelude::*;

use crate::config::{ArenaConfig, WaveConfig};
use crate::event::AppEvent;
use crate::systems::schedule::ScheduledEvent;

verus! {

/// Milliseconds between the end of a wave and the start of the next one.
pub const NEXT_WAVE_DELAY: u32 = 3000;

#[derive(Debug, Clone, Copy, PartialEq, Eq, Structural)]
pub enum WaveStatus {
    /// Nothing has been spawned yet.
    Idle,
    /// Enemies are in the arena.
    Running,
    Over,
}

/// What a wave is, as numbers.
pub ghost struct WaveState {
    /// Enemies that still have to be spawned.
    pub enemies_left: nat,
    /// Enemies of the wave that are alive in the arena.
    pub current_enemies: nat,
    /// Most enemies that are in the arena at the same time.
    pub enemies_in_fly: nat,
    pub status: WaveStatus,
}

/// What the wave system asks for after a poll.
pub ghost enum WaveSignal {
    Nothing,
    /// Spawn this many enemies.
    Spawn(nat),
    /// The wave is finished: announce it and schedule the next one.
    WaveFinished,
    /// No wave is left.
    NextArena,
}

/// `n`, or 0 where `n` is negative.
pub open spec fn spec_clamp(n: i32) -> nat {
    if n > 0 {
        n as nat
    } else {
        0
    }
}

pub open spec fn spec_min(a: nat, b: nat) -> nat {
    if a <= b {
        a
    } else {
        b
    }
}

impl WaveState {
    /// A wave as the configuration describes it: every enemy is still to be
    /// spawned, and none is in the arena. Negative numbers count as 0.
    pub open spec fn from_config(config: WaveConfig) -> WaveState {
        WaveState {
            enemies_left: spec_clamp(config.total_enemies),
            current_enemies: 0,
            enemies_in_fly: spec_clamp(config.enemies_in_fly),
            status: WaveStatus::Idle,
        }
    }

    /// One poll of the wave, in which `died` enemies are reported dead.
    ///
    /// The first poll spawns as many enemies as may be in the arena at once,
    /// or all that are left. After that the deaths are taken off the enemies
    /// in the arena, of which there are never less than none. When none is
    /// left in the arena, the wave is finished, whatever is left to spawn.
    /// Otherwise one enemy is spawned for each that died, as long as there
    /// are enemies left to spawn.
    pub open spec fn poll(self, died: nat) -> (WaveState, WaveSignal) {
        match self.status {
            WaveStatus::Idle => {
                let n = spec_min(self.enemies_left, self.enemies_in_fly);
                (
                    WaveState {
                        enemies_left: (self.enemies_left - n) as nat,
                        current_enemies: self.current_enemies + n,
                        status: WaveStatus::Running,
                        ..self
                    },
                    WaveSignal::Spawn(n),
                )
            },
            WaveStatus::Running => {
                if died == 0 {
                    (self, WaveSignal::Nothing)
                } else if died >= self.current_enemies {
                    (WaveState { current_enemies: 0, ..self }, WaveSignal::WaveFinished)
                } else {
                    let n = spec_min(died, self.enemies_left);
                    (
                        WaveState {
                            current_enemies: (self.current_enemies - died + n) as nat,
                            enemies_left: (self.enemies_left - n) as nat,
                            ..self
                        },
                        WaveSignal::Spawn(n),
                    )
                }
            },
            WaveStatus::Over => (self, WaveSignal::Nothing),
        }
    }
}

/// The state of one wave.
#[derive(Debug, Clone, Copy)]
pub struct Wave {
    /// How many enemies we still have to spawn.
    enemies_left: i32,
    /// How many are alive in the arena.
    current_enemies: i32,
    /// How many enemies are in the arena at the same time, at most.
    enemies_in_fly: i32,
    status: WaveStatus,
}

impl View for Wave {
    type V = WaveState;

    closed spec fn view(&self) -> WaveState {
        WaveState {
            enemies_left: self.enemies_left as nat,
            current_enemies: self.current_enemies as nat,
            enemies_in_fly: self.enemies_in_fly as nat,
            status: self.status,
        }
    }
}

impl Wave {
    #[verifier::type_invariant]
    spec fn inv(self) -> bool {
        &&& self.enemies_left >= 0
        &&& self.current_enemies >= 0
        &&& self.enemies_in_fly >= 0
        &&& self.enemies_left + self.current_enemies <= i32::MAX
    }

    pub fn from_config(config: WaveConfig) -> (r: Self)
        ensures
            r@ == WaveState::from_config(config),
    {
        let total: i32 = if config.total_enemies > 0 {
            config.total_enemies
        } else {
            0
        };
        let in_fly: i32 = if config.enemies_in_fly > 0 {
            config.enemies_in_fly
        } else {
            0
        };
        Self {
            enemies_in_fly: in_fly,
            enemies_left: total,
            current_enemies: 0,
            status: WaveStatus::Idle,
        }
    }

    pub fn enemies_left(&self) -> (r: i32)
        ensures
            r == self@.enemies_left,
    {
        proof {
            use_type_invariant(self);
        }
        self.enemies_left
    }

    pub fn current_enemies(&self) -> (r: i32)
        ensures
            r == self@.current_enemies,
    {
        proof {
            use_type_invariant(self);
        }
        self.current_enemies
    }

    pub fn enemies_in_fly(&self) -> (r: i32)
        ensures
            r == self@.enemies_in_fly,
    {
        proof {
            use_type_invariant(self);
        }
        self.enemies_in_fly
    }

    pub fn status(&self) -> (r: WaveStatus)
        ensures
            r == self@.status,
    {
        self.status
    }

    /// Polls the wave with the number of enemies that died since the last
    /// poll, and returns the event to send, if any.
    pub fn poll(&mut self, died: usize) -> (r: Option<AppEvent>)
        ensures
            final(self)@ == old(self)@.poll(died as nat).0,
            signal_event(r, old(self)@.poll(died as nat).1),
    {
        proof {
            use_type_invariant(&*self);
        }
        match self.status {
            WaveStatus::Idle => {
                let n: i32 = if self.enemies_left <= self.enemies_in_fly {
                    self.enemies_left
                } else {
                    self.enemies_in_fly
                };
                *self = Wave {
                    enemies_left: self.enemies_left - n,
                    current_enemies: self.current_enemies + n,
                    enemies_in_fly: self.enemies_in_fly,
                    status: WaveStatus::Running,
                };
                Some(AppEvent::SpawnEnemy(n))
            },
            WaveStatus::Running => {
                if died == 0 {
                    None
                } else if died >= self.current_enemies as usize {
                    *self = Wave {
                        enemies_left: self.enemies_left,
                        current_enemies: 0,
                        enemies_in_fly: self.enemies_in_fly,
                        status: self.status,
                    };
                    Some(create_next_wave_ev())
                } else {
                    let n: i32 = if died <= self.enemies_left as usize {
                        died as i32
                    } else {
                        self.enemies_left
                    };
                    *self = Wave {
                        enemies_left: self.enemies_left - n,
                        current_enemies: self.current_enemies - died as i32 + n,
                        enemies_in_fly: self.enemies_in_fly,
                        status: self.status,
                    };
                    Some(AppEvent::SpawnEnemy(n))
                }
            },
            WaveStatus::Over => None,
        }
    }
}

/// `ev` announces the end of a wave and carries the start of the next one,
/// to be sent `NEXT_WAVE_DELAY` milliseconds after the dialog is over.
pub open spec fn is_next_wave_dialog(ev: AppEvent) -> bool {
    &&& ev matches AppEvent::NewDialog { dialog, and_then }
    &&& dialog@.len() == 2
    &&& dialog@[0]@ == "Wave finished!"@
    &&& dialog@[1]@ == "Get ready!"@
    &&& and_then matches Some(scheduled)
    &&& scheduled.timeout == NEXT_WAVE_DELAY
    &&& scheduled.event == AppEvent::NextWave
}

/// `ev` is the event that stands for `signal`.
pub open spec fn signal_event(ev: Option<AppEvent>, signal: WaveSignal) -> bool {
    match signal {
        WaveSignal::Nothing => ev is None,
        WaveSignal::Spawn(n) => ev == Some(AppEvent::SpawnEnemy(n as i32)),
        WaveSignal::WaveFinished => ev matches Some(e) && is_next_wave_dialog(e),
        WaveSignal::NextArena => ev == Some(AppEvent::NextArena),
    }
}

pub fn create_next_wave_ev() -> (r: AppEvent)
    ensures
        is_next_wave_dialog(r),
{
    let mut dialog: Vec<String> = Vec::new();
    dialog.push("Wave finished!".to_owned());
    dialog.push("Get ready!".to_owned());
    AppEvent::NewDialog {
        dialog,
        and_then: Some(Box::new(ScheduledEvent { event: AppEvent::NextWave, timeout: NEXT_WAVE_DELAY })),
    }
}

/// What the waves of an arena are, as numbers.
pub ghost struct WavesState {
    pub waves: Seq<WaveState>,
    /// Index of the wave that is played; the number of waves when none is left.
    pub current_wave: nat,
    /// All the waves are over, and this has been announced.
    pub finished: bool,
}

/// How many of `events` report the death of an enemy.
pub open spec fn count_died(events: Seq<AppEvent>) -> nat {
    events.filter(|ev: AppEvent| ev is EnemyDied).len()
}

/// How many of `events` ask for the next wave.
pub open spec fn count_next_wave(events: Seq<AppEvent>) -> nat {
    events.filter(|ev: AppEvent| ev is NextWave).len()
}

impl WavesState {
    /// The waves after `steps` requests for the next wave.
    pub open spec fn advance(self, steps: nat) -> WavesState {
        WavesState {
            current_wave: if self.current_wave + steps <= self.waves.len() {
                self.current_wave + steps
            } else if self.current_wave <= self.waves.len() {
                self.waves.len()
            } else {
                self.current_wave
            },
            ..self
        }
    }

    /// One poll of the waves, once the requests for the next wave have been
    /// followed: `died` enemies are reported dead.
    pub open spec fn poll(self, died: nat) -> (WavesState, WaveSignal) {
        if self.finished {
            (self, WaveSignal::Nothing)
        } else if self.current_wave < self.waves.len() {
            let (wave, signal) = self.waves[self.current_wave as int].poll(died);
            (
                WavesState {
                    waves: self.waves.update(self.current_wave as int, wave),
                    ..self
                },
                signal,
            )
        } else {
            (WavesState { finished: true, ..self }, WaveSignal::NextArena)
        }
    }

    /// One tick of the wave system on the events of that tick.
    pub open spec fn tick(self, events: Seq<AppEvent>) -> (WavesState, WaveSignal) {
        self.advance(count_next_wave(events)).poll(count_died(events))
    }
}

/// The waves of the arena that is played. There is one at a time.
#[derive(Debug)]
pub struct Waves {
    waves: Vec<Wave>,
    current_wave: usize,
    finished: bool,
}

impl View for Waves {
    type V = WavesState;

    closed spec fn view(&self) -> WavesState {
        WavesState {
            waves: Seq::new(self.waves@.len(), |i: int| self.waves@[i]@),
            current_wave: self.current_wave as nat,
            finished: self.finished,
        }
    }
}

impl Waves {
    /// Creates the waves from a configuration, which holds at least one wave.
    pub fn from_config(config: ArenaConfig) -> (r: Self)
        requires
            config.waves@.len() > 0,
        ensures
            r@.waves == Seq::new(
                config.waves@.len(),
                |i: int| WaveState::from_config(config.waves@[i]),
            ),
            r@.current_wave == 0,
            !r@.finished,
    {
        let mut waves: Vec<Wave> = Vec::new();
        let mut i: usize = 0;
        while i < config.waves.len()
            invariant
                i <= config.waves@.len(),
                waves@.len() == i,
                forall|j: int| 0 <= j < i ==> waves@[j]@ == WaveState::from_config(config.waves@[j]),
            decreases config.waves@.len() - i,
        {
            waves.push(Wave::from_config(config.waves[i]));
            i += 1;
        }
        let r = Self { waves, current_wave: 0, finished: false };
        assert(r@.waves =~= Seq::new(
            config.waves@.len(),
            |i: int| WaveState::from_config(config.waves@[i]),
        ));
        r
    }

    pub fn len(&self) -> (r: usize)
        ensures
            r == self@.waves.len(),
    {
        self.waves.len()
    }

    pub fn current_wave(&self) -> (r: usize)
        ensures
            r == self@.current_wave,
    {
        self.current_wave
    }

    pub fn is_finished(&self) -> (r: bool)
        ensures
            r == self@.finished,
    {
        self.finished
    }

    /// The wave at `index`.
    pub fn wave(&self, index: usize) -> (r: Option<Wave>)
        ensures
            index < self@.waves.len() ==> (r matches Some(w) && w@ == self@.waves[index as int]),
            index >= self@.waves.len() ==> r is None,
    {
        if index < self.waves.len() {
            Some(self.waves[index])
        } else {
            None
        }
    }

    /// Moves on by one wave, unless none is left.
    fn next_wave(&mut self)
        ensures
            final(self)@ == old(self)@.advance(1),
    {
        if self.current_wave < self.waves.len() {
            self.current_wave = self.current_wave + 1;
        }
    }

    /// Polls the current wave with the number of enemies that died.
    fn poll(&mut self, died: usize) -> (r: Option<AppEvent>)
        ensures
            final(self)@ == old(self)@.poll(died as nat).0,
            signal_event(r, old(self)@.poll(died as nat).1),
    {
        if self.finished {
            None
        } else if self.current_wave < self.waves.len() {
            let mut wave = self.waves[self.current_wave];
            let r = wave.poll(died);
            self.waves.set(self.current_wave, wave);
            assert(self@.waves =~= old(self)@.waves.update(old(self)@.current_wave as int, wave@));
            r
        } else {
            self.finished = true;
            Some(AppEvent::NextArena)
        }
    }
}

/// Keeps track of how many enemies are in the arena and of when to spawn
/// new ones.
#[derive(Debug, Clone, Copy, Default)]
pub struct WaveSystem;

impl WaveSystem {
    pub fn new() -> (r: Self) {
        Self
    }

    /// One tick: follows each request for the next wave among `events`, then
    /// polls the current wave with the deaths among them. Returns the event
    /// to send, if any.
    pub fn run(&mut self, waves: &mut Waves, events: &Vec<AppEvent>) -> (r: Option<AppEvent>)
        ensures
            final(waves)@ == old(waves)@.tick(events@).0,
            signal_event(r, old(waves)@.tick(events@).1),
    {
        let mut died: usize = 0;
        let mut i: usize = 0;
        let ghost is_died = |ev: AppEvent| ev is EnemyDied;
        let ghost is_next = |ev: AppEvent| ev is NextWave;
        while i < events.len()
            invariant
                i <= events@.len(),
                died == events@.take(i as int).filter(is_died).len(),
                died <= i,
                waves@ == old(waves)@.advance(events@.take(i as int).filter(is_next).len()),
                is_died == |ev: AppEvent| ev is EnemyDied,
                is_next == |ev: AppEvent| ev is NextWave,
            decreases events@.len() - i,
        {
            proof {
                let prefix = events@.take(i as int + 1);
                assert(prefix.drop_last() =~= events@.take(i as int));
                assert(prefix.last() == events@[i as int]);
                reveal(Seq::filter);
                assert(prefix.filter(is_died) == if is_died(prefix.last()) {
                    prefix.drop_last().filter(is_died).push(prefix.last())
                } else {
                    prefix.drop_last().filter(is_died)
                });
                assert(prefix.filter(is_next) == if is_next(prefix.last()) {
                    prefix.drop_last().filter(is_next).push(prefix.last())
                } else {
                    prefix.drop_last().filter(is_next)
                });
            }
            match &events[i] {
                AppEvent::EnemyDied(_) => {
                    died = died + 1;
                },
                AppEvent::NextWave => {
                    waves.next_wave();
                },
                _ => {},
            }
            i += 1;
        }
        assert(events@.take(events@.len() as int) =~= events@);
        waves.poll(died)
    }
}

/// A running wave is finished by the deaths that leave no enemy in the
/// arena: what is left to spawn stays, and nothing is spawned.
pub proof fn lemma_wave_finishes_when_arena_is_empty(wave: WaveState, died: nat)
    requires
        wave.status == WaveStatus::Running,
        died > 0,
        died >= wave.current_enemies,
    ensures
        wave.poll(died).1 == WaveSignal::WaveFinished,
        wave.poll(died).0 == (WaveState { current_enemies: 0, ..wave }),
{
}

/// The first poll of a wave made from a configuration puts as many enemies
/// into the arena as may be there at once, or all of them, and leaves the
/// rest to spawn.
pub proof fn lemma_first_poll(config: WaveConfig, died: nat)
    ensures
        ({
            let wave = WaveState::from_config(config);
            let n = spec_min(wave.enemies_left, wave.enemies_in_fly);
            &&& wave.poll(died).1 == WaveSignal::Spawn(n)
            &&& wave.poll(died).0.current_enemies == n
            &&& wave.poll(died).0.enemies_left == wave.enemies_left - n
            &&& wave.poll(died).0.status == WaveStatus::Running
        }),
{
}

} // verus!
