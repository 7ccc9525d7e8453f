use vstd::prelude::*;

verus! {

/// Emotional sound events that mark highlights.
#[derive(Debug, Clone, Copy, PartialEq, Eq, Structural)]
pub enum SoundEventType {
    /// Cheering
    Cheering,
    /// Laughter
    Laughter,
    /// Screaming
    Screaming,
    /// Applause
    Applause,
    /// Speech
    Speech,
    /// Anything else
    Other,
}

pub open spec fn event_label(e: SoundEventType) -> Seq<char> {
    match e {
        SoundEventType::Cheering => "欢呼声"@,
        SoundEventType::Laughter => "大笑"@,
        SoundEventType::Screaming => "尖叫/呐喊"@,
        SoundEventType::Applause => "热烈掌声"@,
        SoundEventType::Speech => "人声叙述"@,
        SoundEventType::Other => "环境声"@,
    }
}

/// How much an event of each type weighs in a highlight's emotion score, in tenths.
pub open spec fn event_weight_tenths(e: SoundEventType) -> nat {
    match e {
        SoundEventType::Cheering => 15,
        SoundEventType::Screaming => 14,
        SoundEventType::Applause => 12,
        SoundEventType::Laughter => 11,
        SoundEventType::Speech => 4,
        SoundEventType::Other => 1,
    }
}

impl SoundEventType {
    pub fn label_zh(&self) -> (r: &'static str)
        ensures
            r@ == event_label(*self),
    {
        match self {
            SoundEventType::Cheering => "欢呼声",
            SoundEventType::Laughter => "大笑",
            SoundEventType::Screaming => "尖叫/呐喊",
            SoundEventType::Applause => "热烈掌声",
            SoundEventType::Speech => "人声叙述",
            SoundEventType::Other => "环境声",
        }
    }

    /// Weight of this event type in tenths: the emotional events outweigh speech and
    /// ambience.
    pub fn weight_tenths(&self) -> (r: u32)
        ensures
            r as nat == event_weight_tenths(*self),
    {
        match self {
            SoundEventType::Cheering => 15,
            SoundEventType::Screaming => 14,
            SoundEventType::Applause => 12,
            SoundEventType::Laughter => 11,
            SoundEventType::Speech => 4,
            SoundEventType::Other => 1,
        }
    }
}


/// The event types of `s`, each once, in the order they first occur.
pub open spec fn first_occurrences(s: Seq<SoundEventType>) -> Seq<SoundEventType>
    decreases s.len(),
{
    if s.len() == 0 {
        Seq::empty()
    } else {
        let d = first_occurrences(s.drop_last());
        if d.contains(s.last()) {
            d
        } else {
            d.push(s.last())
        }
    }
}

/// The event types detected in a highlight, each named once, in the order they were first
/// heard.
pub fn distinct_event_types(events: &Vec<SoundEventType>) -> (r: Vec<SoundEventType>)
    ensures
        r@ == first_occurrences(events@),
{
    let mut r: Vec<SoundEventType> = Vec::new();
    let mut i: usize = 0;
    while i < events.len()
        invariant
            i <= events.len(),
            r@ == first_occurrences(events@.take(i as int)),
        decreases events.len() - i,
    {
        let e = events[i];
        let mut seen = false;
        let mut j: usize = 0;
        while j < r.len()
            invariant
                j <= r.len(),
                seen == (exists|t: int| 0 <= t < j && r@[t] == e),
            decreases r.len() - j,
        {
            if r[j] == e {
                seen = true;
            }
            j = j + 1;
        }
        assert(events@.take(i + 1).drop_last() =~= events@.take(i as int));
        assert(events@.take(i + 1).last() == e);
        if !seen {
            r.push(e);
        } else {
            proof {
                let t = choose|t: int| 0 <= t < r@.len() && r@[t] == e;
                assert(r@.contains(e));
            }
        }
        i = i + 1;
    }
    assert(events@.take(i as int) =~= events@);
    r
}

} // verus!
