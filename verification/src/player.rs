use vstd::prelude::*;

verus! {

/// Where playback of decoded fragments stands: the segment being played and the next
/// decoded sample in it.
#[derive(Debug, Clone, Copy, PartialEq, Eq, Structural)]
pub struct PlayCursor {
    pub fragment: usize,
    pub sample: usize,
}

/// What one step of gathering decoded samples does.
#[derive(Debug, Clone, Copy, PartialEq, Eq, Structural)]
pub enum CursorStep {
    /// Past the last segment, or the current segment is not decoded yet: gathering stops.
    Stop,
    /// The current segment has no sample left: the cursor moved to the next segment.
    NextFragment,
    /// Sample `sample` of segment `fragment` is the next to play; the cursor moved past it.
    Take { fragment: usize, sample: usize },
}

impl PlayCursor {
    /// The start of the stream.
    pub fn new() -> (r: Self)
        ensures
            r == (PlayCursor { fragment: 0, sample: 0 }),
    {
        PlayCursor { fragment: 0, sample: 0 }
    }

    /// The cursor is past the last of `segment_count` segments: playback is over.
    pub fn finished(&self, segment_count: usize) -> (r: bool)
        ensures
            r == (self.fragment >= segment_count),
    {
        self.fragment >= segment_count
    }

    /// One step of gathering decoded samples, given the number of segments and the number
    /// of decoded samples of the current segment (none when it is not decoded yet).
    pub fn step(&mut self, segment_count: usize, decoded: Option<usize>) -> (r: CursorStep)
        ensures
            old(self).fragment >= segment_count || decoded is None ==> r == CursorStep::Stop
                && *final(self) == *old(self),
            decoded matches Some(n) ==> (old(self).fragment < segment_count && old(self).sample
                >= n ==> r == CursorStep::NextFragment && *final(self) == (PlayCursor {
                fragment: (old(self).fragment + 1) as usize,
                sample: 0,
            })),
            decoded matches Some(n) ==> (old(self).fragment < segment_count && old(self).sample
                < n ==> r == (CursorStep::Take {
                fragment: old(self).fragment,
                sample: old(self).sample,
            }) && *final(self) == (PlayCursor {
                fragment: old(self).fragment,
                sample: (old(self).sample + 1) as usize,
            })),
    {
        if self.fragment >= segment_count {
            return CursorStep::Stop;
        }
        let n = match decoded {
            Some(n) => n,
            None => {
                return CursorStep::Stop;
            },
        };
        if self.sample >= n {
            self.fragment = self.fragment + 1;
            self.sample = 0;
            return CursorStep::NextFragment;
        }
        let taken = CursorStep::Take { fragment: self.fragment, sample: self.sample };
        self.sample = self.sample + 1;
        taken
    }

    /// Back to the start of the stream, to play it again.
    pub fn rewind(&mut self)
        ensures
            *final(self) == (PlayCursor { fragment: 0, sample: 0 }),
    {
        self.fragment = 0;
        self.sample = 0;
    }
}

/// What reaches the player: a request to play the next batch of samples (at the start,
/// and when the batch before has ended), or the news that a segment was decoded.
#[derive(Debug, Clone, Copy, PartialEq, Eq, Structural)]
pub enum PlayerEvent {
    Suspend,
    DownloadedFragment(usize),
}

/// What the player does on an event: ask the downloader for a segment, if any, and then
/// play the next batch of samples, if `play`.
#[derive(Debug, Clone, Copy, PartialEq, Eq, Structural)]
pub struct PlayerAction {
    pub download: Option<usize>,
    pub play: bool,
}

/// What the player does once the last segment has been played.
#[derive(Debug, Clone, Copy, PartialEq, Eq, Structural)]
pub enum StopAction {
    /// Back to the start, and play again.
    Restart,
    /// Playback is over.
    End,
}

/// The decisions of the player: where playback stands, whether it waits for a segment to
/// be decoded, and whether it loops.
#[derive(Debug, Clone, Copy, PartialEq, Eq, Structural)]
pub struct PlayerState {
    pub cursor: PlayCursor,
    pub suspend: bool,
    pub is_loop: bool,
}

impl PlayerState {
    /// A player at the start of the stream, waiting, that does not loop.
    pub fn new() -> (r: Self)
        ensures
            r == (PlayerState { cursor: PlayCursor { fragment: 0, sample: 0 }, suspend: true, is_loop: false }),
    {
        PlayerState { cursor: PlayCursor::new(), suspend: true, is_loop: false }
    }

    /// Back to the start of a new stream, waiting.
    pub fn reset(&mut self)
        ensures
            *final(self) == (PlayerState {
                cursor: PlayCursor { fragment: 0, sample: 0 },
                suspend: true,
                is_loop: old(self).is_loop,
            }),
    {
        self.cursor.rewind();
        self.suspend = true;
    }

    /// Decides what to do on `event`. A request to play plays the next batch. When
    /// segment `i` has been decoded, the next segment is asked for, and the next batch is
    /// played if the player waits and stands at segment `i`. The state does not change.
    pub fn on_event(&self, event: PlayerEvent) -> (r: PlayerAction)
        requires
            event matches PlayerEvent::DownloadedFragment(i) ==> i < usize::MAX,
        ensures
            event == PlayerEvent::Suspend ==> r == (PlayerAction { download: None, play: true }),
            event matches PlayerEvent::DownloadedFragment(i) ==> r == (PlayerAction {
                download: Some((i + 1) as usize),
                play: self.suspend && self.cursor.fragment == i,
            }),
    {
        match event {
            PlayerEvent::Suspend => PlayerAction { download: None, play: true },
            PlayerEvent::DownloadedFragment(i) => PlayerAction {
                download: Some(i + 1),
                play: self.suspend && self.cursor.fragment == i,
            },
        }
    }

    /// After an attempt to play a batch: when no sample was ready, the player waits and
    /// asks for the segment it stands at; else nothing changes.
    pub fn after_play(&mut self, played: bool) -> (r: Option<usize>)
        ensures
            played ==> r is None && *final(self) == *old(self),
            !played ==> r == Some(old(self).cursor.fragment) && *final(self) == (PlayerState {
                suspend: true,
                ..*old(self)
            }),
    {
        if played {
            None
        } else {
            self.suspend = true;
            Some(self.cursor.fragment)
        }
    }

    /// Once the last segment has been played: a looping player goes back to the start and
    /// plays again; else playback ends and nothing changes.
    pub fn on_stop(&mut self) -> (r: StopAction)
        ensures
            old(self).is_loop ==> r == StopAction::Restart && *final(self) == (PlayerState {
                cursor: PlayCursor { fragment: 0, sample: 0 },
                ..*old(self)
            }),
            !old(self).is_loop ==> r == StopAction::End && *final(self) == *old(self),
    {
        if self.is_loop {
            self.cursor.rewind();
            StopAction::Restart
        } else {
            StopAction::End
        }
    }
}

/// The first segment at or after `from` that is not decoded yet, of those whose state
/// `cached` gives; nothing when all of them are.
pub fn first_missing(cached: &[bool], from: usize) -> (r: Option<usize>)
    ensures
        r matches Some(j) ==> from <= j < cached@.len() && !cached@[j as int] && forall|k: int|
            from <= k < j ==> #[trigger] cached@[k],
        r is None ==> forall|k: int| from <= k < cached@.len() ==> #[trigger] cached@[k],
{
    let mut index = from;
    while index < cached.len()
        invariant
            from <= index,
            forall|k: int| from <= k < index ==> #[trigger] cached@[k],
        decreases cached.len() - index,
    {
        if !cached[index] {
            return Some(index);
        }
        index = index + 1;
    }
    None
}

/// Only samples of 1024 time units, the length of an AAC frame, are decoded.
pub fn decodable(duration: u32) -> (r: bool)
    ensures
        r == (duration == 1024),
{
    duration == 1024
}

} // verus!
