//! Runtime tag state: value, quality and timestamps.

use crate::core_model::tag_value::{TagQuality, TagQualityView, TagValue, TagValueView};
use crate::time::{is_clock_reading, nanos_between, TimeSpan, Timestamp};
use vstd::prelude::*;

verus! {

/// Runtime state of a tag.
#[derive(Debug)]
pub struct Tag {
    /// Current value of the tag.
    pub value: TagValue,
    /// Quality of the value (Good, Stale, CommLost, etc.).
    pub quality: TagQuality,
    /// When the value was sourced from the PLC.
    pub source_timestamp: Timestamp,
    /// When the value was last updated in the server.
    pub server_timestamp: Timestamp,
}

/// What a [`Tag`] holds.
#[verifier::ext_equal]
pub ghost struct TagView {
    pub value: TagValueView,
    pub quality: TagQualityView,
    pub source_timestamp: Timestamp,
    pub server_timestamp: Timestamp,
}

impl View for Tag {
    type V = TagView;

    open spec fn view(&self) -> TagView {
        TagView {
            value: self.value@,
            quality: self.quality@,
            source_timestamp: self.source_timestamp,
            server_timestamp: self.server_timestamp,
        }
    }
}

impl TagView {
    /// A tag that has its first value and waits for the PLC.
    pub open spec fn fresh(value: TagValueView, now: Timestamp) -> TagView {
        TagView {
            value,
            quality: TagQualityView::Initializing,
            source_timestamp: now,
            server_timestamp: now,
        }
    }

    /// The tag after a value was read.
    pub open spec fn read(
        self,
        value: TagValueView,
        quality: TagQualityView,
        source_ts: Timestamp,
        now: Timestamp,
    ) -> TagView {
        TagView { value, quality, source_timestamp: source_ts, server_timestamp: now }
    }

    /// The tag after its quality was set.
    pub open spec fn with_quality(self, quality: TagQualityView, now: Timestamp) -> TagView {
        TagView { quality, server_timestamp: now, ..self }
    }

    /// The tag after its server timestamp was renewed.
    pub open spec fn touched(self, now: Timestamp) -> TagView {
        TagView { server_timestamp: now, ..self }
    }

    /// Whether the source timestamp lies in the future of `now`, or further back than `timeout`.
    pub open spec fn stale(self, timeout: TimeSpan, now: Timestamp) -> bool {
        let age = nanos_between(now, self.source_timestamp);
        age < 0 || age > timeout.nanos
    }
}

impl Clone for Tag {
    fn clone(&self) -> (r: Tag)
        ensures
            r@ == self@,
    {
        Tag {
            value: self.value.clone(),
            quality: self.quality.clone(),
            source_timestamp: self.source_timestamp,
            server_timestamp: self.server_timestamp,
        }
    }
}

impl Tag {
    /// A tag that waits for its first PLC value, as of now.
    pub fn new(value: TagValue) -> (r: Tag)
        ensures
            exists|now: Timestamp| is_clock_reading(now) && r@ == #[trigger] TagView::fresh(value@, now),
    {
        let now = Timestamp::now();
        Tag::new_at(value, now)
    }

    /// A tag that waits for its first PLC value, as of `now`.
    pub fn new_at(value: TagValue, now: Timestamp) -> (r: Tag)
        ensures
            r@ == TagView::fresh(value@, now),
    {
        Tag {
            value,
            quality: TagQuality::Initializing,
            source_timestamp: now,
            server_timestamp: now,
        }
    }

    /// Apply a read value and update timestamps, as of now.
    pub fn apply_read(&mut self, value: TagValue, quality: TagQuality, source_ts: Timestamp)
        ensures
            exists|now: Timestamp| is_clock_reading(now) &&
                final(self)@ == #[trigger] old(self)@.read(value@, quality@, source_ts, now),
    {
        let now = Timestamp::now();
        self.apply_read_at(value, quality, source_ts, now);
    }

    /// Apply a read value and update timestamps, as of `now`.
    pub fn apply_read_at(
        &mut self,
        value: TagValue,
        quality: TagQuality,
        source_ts: Timestamp,
        now: Timestamp,
    )
        ensures
            final(self)@ == old(self)@.read(value@, quality@, source_ts, now),
    {
        self.value = value;
        self.quality = quality;
        self.source_timestamp = source_ts;
        self.server_timestamp = now;
    }

    /// Set the quality, as of now.
    pub fn set_quality(&mut self, quality: TagQuality)
        ensures
            exists|now: Timestamp| is_clock_reading(now) &&
                final(self)@ == #[trigger] old(self)@.with_quality(quality@, now),
    {
        let now = Timestamp::now();
        self.set_quality_at(quality, now);
    }

    /// Set the quality, as of `now`.
    pub fn set_quality_at(&mut self, quality: TagQuality, now: Timestamp)
        ensures
            final(self)@ == old(self)@.with_quality(quality@, now),
    {
        self.quality = quality;
        self.server_timestamp = now;
    }

    /// Renew the server timestamp.
    pub fn touch(&mut self)
        ensures
            exists|now: Timestamp| is_clock_reading(now) && final(self)@ == #[trigger] old(self)@.touched(now),
    {
        let now = Timestamp::now();
        self.touch_at(now);
    }

    /// Set the server timestamp to `now`.
    pub fn touch_at(&mut self, now: Timestamp)
        ensures
            final(self)@ == old(self)@.touched(now),
    {
        self.server_timestamp = now;
    }

    /// Whether the source timestamp is stale now.
    pub fn is_stale(&self, timeout: TimeSpan) -> (r: bool)
        ensures
            exists|now: Timestamp| is_clock_reading(now) && r == #[trigger] self@.stale(timeout, now),
            timeout.nanos < 0 ==> r,
    {
        let now = Timestamp::now();
        self.is_stale_at(timeout, now)
    }

    /// Whether the source timestamp is stale at `now`.
    pub fn is_stale_at(&self, timeout: TimeSpan, now: Timestamp) -> (r: bool)
        ensures
            r == self@.stale(timeout, now),
    {
        let age: i128 = now.since(&self.source_timestamp).nanos;
        age < 0 || age > timeout.nanos
    }
}

} // verus!
