use vstd::prelude::*;

verus! {

/// That many samples of silence.
pub open spec fn silence(samples: nat) -> Seq<i16> {
    Seq::new(samples, |i: int| 0i16)
}

/// The samples of the utterance that is being collected: a fixed pre-roll
/// of silence, then the audio, of which there is never more than the
/// capacity.
pub struct UtteranceBuffer {
    samples: Vec<i16>,
    pre_roll: usize,
    capacity: usize,
}

impl View for UtteranceBuffer {
    type V = Seq<i16>;

    /// Pre-roll and audio, as they are handed over.
    closed spec fn view(&self) -> Seq<i16> {
        self.samples@
    }
}

impl UtteranceBuffer {
    pub closed spec fn pre_roll(&self) -> nat {
        self.pre_roll as nat
    }

    /// Most samples of audio that the buffer holds after its pre-roll.
    pub closed spec fn capacity(&self) -> nat {
        self.capacity as nat
    }

    /// The audio: what follows the pre-roll.
    pub open spec fn audio(&self) -> Seq<i16> {
        self@.skip(self.pre_roll() as int)
    }

    pub open spec fn wf(&self) -> bool {
        &&& self.pre_roll() + self.capacity() <= usize::MAX
        &&& self.pre_roll() <= self@.len() <= self.pre_roll() + self.capacity()
        &&& self@.take(self.pre_roll() as int) == silence(self.pre_roll())
    }

    /// A buffer that holds its pre-roll and no audio; `None` where pre-roll
    /// and capacity together cannot be counted.
    pub fn new(pre_roll: usize, capacity: usize) -> (made: Option<UtteranceBuffer>)
        ensures
            made.is_some() == (pre_roll + capacity <= usize::MAX),
            made matches Some(buffer) ==> buffer.wf() && buffer.pre_roll() == pre_roll
                && buffer.capacity() == capacity && buffer@ == silence(pre_roll as nat),
    {
        if pre_roll > usize::MAX - capacity {
            return None;
        }
        let samples = silent(pre_roll);
        let buffer = UtteranceBuffer { samples, pre_roll, capacity };
        assert(buffer@.take(pre_roll as int) =~= buffer@);
        Some(buffer)
    }

    /// Samples in the buffer, the pre-roll among them.
    pub fn len(&self) -> (samples: usize)
        ensures
            samples == self@.len(),
    {
        self.samples.len()
    }

    /// Samples of audio in the buffer.
    pub fn audio_len(&self) -> (samples: usize)
        requires
            self.wf(),
        ensures
            samples == self.audio().len(),
    {
        self.samples.len() - self.pre_roll
    }

    pub fn as_slice(&self) -> (samples: &[i16])
        ensures
            samples@ == self@,
    {
        self.samples.as_slice()
    }

    /// Drops the audio; the pre-roll stays.
    pub fn reset(&mut self)
        requires
            old(self).wf(),
        ensures
            final(self).wf(),
            final(self).pre_roll() == old(self).pre_roll(),
            final(self).capacity() == old(self).capacity(),
            final(self)@ == silence(old(self).pre_roll()),
    {
        self.samples.truncate(self.pre_roll);
        assert(self@ =~= old(self)@.take(self.pre_roll as int));
        assert(self@.take(self.pre_roll as int) =~= self@);
    }

    /// Hands the buffer over as it is, and starts again from the pre-roll.
    pub fn take(&mut self) -> (utterance: Vec<i16>)
        requires
            old(self).wf(),
        ensures
            final(self).wf(),
            final(self).pre_roll() == old(self).pre_roll(),
            final(self).capacity() == old(self).capacity(),
            final(self)@ == silence(old(self).pre_roll()),
            utterance@ == old(self)@,
    {
        let mut utterance = silent(self.pre_roll);
        assert(utterance@.take(self.pre_roll as int) =~= utterance@);
        std::mem::swap(&mut self.samples, &mut utterance);
        utterance
    }

    /// Appends a frame. Where it does not fit, the buffer is filled up and
    /// handed over, complete at exactly its capacity, and the rest of the
    /// frame is the audio of a buffer that starts again from the pre-roll:
    /// no sample is lost and none is counted twice.
    pub fn append(&mut self, frame: &[i16]) -> (completed: Option<Vec<i16>>)
        requires
            old(self).wf(),
            frame@.len() <= old(self).capacity(),
        ensures
            final(self).wf(),
            final(self).pre_roll() == old(self).pre_roll(),
            final(self).capacity() == old(self).capacity(),
            completed.is_some() == (old(self).audio().len() + frame@.len() > old(self).capacity()),
            completed is None ==> final(self)@ == old(self)@ + frame@,
            completed matches Some(utterance) ==> {
                let fit = old(self).capacity() - old(self).audio().len();
                &&& utterance@ == old(self)@ + frame@.take(fit)
                &&& utterance@.len() == old(self).pre_roll() + old(self).capacity()
                &&& final(self)@ == silence(old(self).pre_roll()) + frame@.skip(fit)
                &&& utterance@.skip(old(self).pre_roll() as int).len() + final(self).audio().len()
                    == old(self).audio().len() + frame@.len()
            },
    {
        let room: usize = self.capacity - (self.samples.len() - self.pre_roll);
        if frame.len() <= room {
            extend(&mut self.samples, frame, 0, frame.len());
            assert(frame@.subrange(0, frame@.len() as int) =~= frame@);
            assert(self.samples@.take(self.pre_roll as int) =~= old(self)@.take(
                self.pre_roll as int,
            ));
            None
        } else {
            extend(&mut self.samples, frame, 0, room);
            let mut utterance = silent(self.pre_roll);
            extend(&mut utterance, frame, room, frame.len());
            assert(utterance@.take(self.pre_roll as int) =~= silence(self.pre_roll as nat));
            std::mem::swap(&mut self.samples, &mut utterance);
            assert(self@.skip(self.pre_roll as int) =~= frame@.skip(room as int));
            assert(utterance@.skip(self.pre_roll as int) =~= old(self).audio() + frame@.take(
                room as int,
            ));
            Some(utterance)
        }
    }
}

/// A vector of that many samples of silence.
pub(crate) fn silent(samples: usize) -> (made: Vec<i16>)
    ensures
        made@ == silence(samples as nat),
{
    let mut made: Vec<i16> = Vec::new();
    let mut i: usize = 0;
    while i < samples
        invariant
            i <= samples,
            made@ == silence(i as nat),
        decreases samples - i,
    {
        made.push(0i16);
        i = i + 1;
        assert(made@ =~= silence(i as nat));
    }
    made
}

/// Appends `source[from..to]` to `target`.
pub(crate) fn extend(target: &mut Vec<i16>, source: &[i16], from: usize, to: usize)
    requires
        from <= to <= source@.len(),
    ensures
        final(target)@ == old(target)@ + source@.subrange(from as int, to as int),
{
    let mut i: usize = from;
    while i < to
        invariant
            from <= i <= to <= source@.len(),
            target@ == old(target)@ + source@.subrange(from as int, i as int),
        decreases to - i,
    {
        target.push(source[i]);
        i = i + 1;
        assert(target@ =~= old(target)@ + source@.subrange(from as int, i as int));
    }
    assert(target@ =~= old(target)@ + source@.subrange(from as int, to as int));
}

} // verus!
