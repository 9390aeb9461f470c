use vstd::prelude::*;

verus! {

/// A countdown of `duration_micros` microseconds. A repeating timer starts
/// over each time it runs out, keeping the time past the end; a one-shot
/// timer stops at the end and stays finished.
#[derive(Clone, Copy, Debug, PartialEq, Eq, Structural)]
pub struct FrameTimer {
    pub duration_micros: u64,
    pub elapsed_micros: u64,
    pub repeating: bool,
    pub finished: bool,
}

impl FrameTimer {
    /// A timer of `duration_micros`, at zero.
    pub fn new(duration_micros: u64, repeating: bool) -> (r: FrameTimer)
        ensures
            r == (FrameTimer { duration_micros, elapsed_micros: 0, repeating, finished: false }),
    {
        FrameTimer { duration_micros, elapsed_micros: 0, repeating, finished: false }
    }

    /// The timer after running for `delta_micros`.
    pub open spec fn after_tick(self, delta_micros: u64) -> FrameTimer {
        let run = self.elapsed_micros + delta_micros;
        if self.finished && !self.repeating {
            self
        } else if run >= self.duration_micros {
            FrameTimer {
                duration_micros: self.duration_micros,
                elapsed_micros: (if self.repeating {
                    run % (self.duration_micros as int)
                } else {
                    self.duration_micros as int
                }) as u64,
                repeating: self.repeating,
                finished: true,
            }
        } else {
            FrameTimer {
                duration_micros: self.duration_micros,
                elapsed_micros: run as u64,
                repeating: self.repeating,
                finished: false,
            }
        }
    }

    /// The timer runs out on a tick of `delta_micros`.
    pub open spec fn tick_fires(self, delta_micros: u64) -> bool {
        !(self.finished && !self.repeating) && self.elapsed_micros + delta_micros
            >= self.duration_micros
    }

    /// Runs the timer for `delta_micros`; tells whether it ran out on this tick.
    pub fn tick(&mut self, delta_micros: u64) -> (just_finished: bool)
        requires
            old(self).duration_micros > 0,
            old(self).elapsed_micros + delta_micros <= u64::MAX,
        ensures
            *final(self) == old(self).after_tick(delta_micros),
            just_finished == old(self).tick_fires(delta_micros),
    {
        if self.finished && !self.repeating {
            return false;
        }
        let run = self.elapsed_micros + delta_micros;
        if run >= self.duration_micros {
            self.finished = true;
            self.elapsed_micros = if self.repeating {
                run % self.duration_micros
            } else {
                self.duration_micros
            };
            true
        } else {
            self.finished = false;
            self.elapsed_micros = run;
            false
        }
    }

    /// Sets the timer back to zero, not finished.
    pub fn reset(&mut self)
        ensures
            final(self).duration_micros == old(self).duration_micros,
            final(self).repeating == old(self).repeating,
            final(self).elapsed_micros == 0,
            !final(self).finished,
    {
        self.elapsed_micros = 0;
        self.finished = false;
    }
}

/// Plays the sprite-sheet frames `frames` one per timer period, from
/// `current_frame`; a looping animation starts over, another one ends on its
/// last frame.
pub struct FrameAnimation {
    pub timer: FrameTimer,
    pub frames: Vec<usize>,
    pub current_frame: usize,
    pub is_looping: bool,
}

/// The animation stage.
#[derive(Clone, Copy, Debug, PartialEq, Eq, Structural)]
pub struct AnimatorPlugin;

impl FrameAnimation {
    /// The frame shown is one of the frames, and the timer can run.
    pub open spec fn well_formed(&self) -> bool {
        &&& self.current_frame < self.frames@.len()
        &&& self.timer.duration_micros > 0
    }

    /// An animation of `frames`, `frame_duration_micros` each, on its first
    /// frame; its timer repeats when the animation loops.
    pub fn new(frames: Vec<usize>, frame_duration_micros: u64, is_looping: bool) -> (r: FrameAnimation)
        requires
            frames@.len() > 0,
            frame_duration_micros > 0,
        ensures
            r.well_formed(),
            r.frames@ == frames@,
            r.current_frame == 0,
            r.is_looping == is_looping,
            r.timer == FrameTimer::new_spec(frame_duration_micros, is_looping),
    {
        FrameAnimation {
            timer: FrameTimer::new(frame_duration_micros, is_looping),
            frames,
            current_frame: 0,
            is_looping,
        }
    }
}

impl FrameTimer {
    pub open spec fn new_spec(duration_micros: u64, repeating: bool) -> FrameTimer {
        FrameTimer { duration_micros, elapsed_micros: 0, repeating, finished: false }
    }
}

/// What an animation tick asks of the sprite.
#[derive(Clone, Copy, Debug, PartialEq, Eq, Structural)]
pub struct FrameUpdate {
    /// The sprite-sheet index to show now, when it changed.
    pub index: Option<usize>,
    /// The animated entity is done and is to be despawned.
    pub despawn: bool,
}

/// One tick of an animation, `delta_micros` after the last. When the timer
/// runs out the next frame shows, wrapping to the first; a one-shot
/// animation that shows its last frame is done. The timer then starts over.
pub fn loop_animated_frames(animation: &mut FrameAnimation, delta_micros: u64) -> (r: FrameUpdate)
    requires
        old(animation).well_formed(),
        old(animation).timer.elapsed_micros + delta_micros <= u64::MAX,
    ensures
        final(animation).well_formed(),
        final(animation).frames == old(animation).frames,
        final(animation).is_looping == old(animation).is_looping,
        ({
            let t = old(animation).timer;
            let n = old(animation).frames@.len();
            if t.tick_fires(delta_micros) {
                let next = (old(animation).current_frame + 1) % (n as int);
                let index = old(animation).frames@[next];
                &&& final(animation).current_frame == next
                &&& final(animation).timer == (FrameTimer {
                    elapsed_micros: 0,
                    finished: false,
                    ..t.after_tick(delta_micros)
                })
                &&& r.index == Some(index)
                &&& r.despawn == (!old(animation).is_looping && index == old(animation).frames@[n
                    - 1])
            } else {
                &&& final(animation).current_frame == old(animation).current_frame
                &&& final(animation).timer == t.after_tick(delta_micros)
                &&& r == (FrameUpdate { index: None, despawn: false })
            }
        }),
{
    let fired = animation.timer.tick(delta_micros);
    if fired {
        let n = animation.frames.len();
        animation.current_frame = (animation.current_frame + 1) % n;
        let index = animation.frames[animation.current_frame];
        let despawn = !animation.is_looping && index == animation.frames[n - 1];
        animation.timer.reset();
        FrameUpdate { index: Some(index), despawn }
    } else {
        FrameUpdate { index: None, despawn: false }
    }
}

/// One tick of the player's animation toward `target_frame`: each time the
/// timer runs out, the shown frame moves one step closer to the target.
pub fn animate_player(animation: &mut FrameAnimation, target_frame: usize, delta_micros: u64) -> (r:
    Option<usize>)
    requires
        old(animation).well_formed(),
        target_frame < old(animation).frames@.len(),
        old(animation).timer.elapsed_micros + delta_micros <= u64::MAX,
    ensures
        final(animation).well_formed(),
        final(animation).frames == old(animation).frames,
        final(animation).is_looping == old(animation).is_looping,
        final(animation).timer == old(animation).timer.after_tick(delta_micros),
        ({
            let fired = old(animation).timer.tick_fires(delta_micros);
            let cur = old(animation).current_frame as int;
            if fired && cur != target_frame {
                let next = if target_frame > cur { cur + 1 } else { cur - 1 };
                &&& final(animation).current_frame == next
                &&& r == Some(old(animation).frames@[next])
            } else {
                &&& final(animation).current_frame == cur
                &&& r is None
            }
        }),
{
    let fired = animation.timer.tick(delta_micros);
    if fired && animation.current_frame != target_frame {
        if target_frame > animation.current_frame {
            animation.current_frame = animation.current_frame + 1;
        } else {
            animation.current_frame = animation.current_frame - 1;
        }
        Some(animation.frames[animation.current_frame])
    } else {
        None
    }
}

} // verus!
