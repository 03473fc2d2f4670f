use vstd::prelude::*;

verus! {

/// A value that goes stale: it remembers when it was created and, once a
/// timeout is set, reports itself outdated after that many milliseconds.
/// The caller supplies the clock readings, in milliseconds of any one
/// monotonic clock.
pub struct Delayed<T> {
    data: Option<T>,
    last_update: u64,
    timeout: Option<u64>,
}

/// The three states a delayed value can be read in.
pub enum DelayedResult<T> {
    Ready(T),
    Undefined,
    Outdated,
}

impl<T> Delayed<T> {
    /// The held value, if any.
    pub closed spec fn spec_data(self) -> Option<T> {
        self.data
    }

    /// When the value was created.
    pub closed spec fn spec_last_update(self) -> u64 {
        self.last_update
    }

    /// The staleness bound, if one is set.
    pub closed spec fn spec_timeout(self) -> Option<u64> {
        self.timeout
    }

    /// The value is outdated at `now` when a timeout is set and more than
    /// that many milliseconds have passed since creation.
    pub open spec fn spec_outdated(self, now: u64) -> bool {
        match self.spec_timeout() {
            Some(t) => self.spec_last_update() + t < now,
            None => false,
        }
    }

    pub fn new(now: u64) -> (r: Self)
        ensures
            r.spec_data() is None,
            r.spec_last_update() == now,
            r.spec_timeout() is None,
    {
        Self { data: None, last_update: now, timeout: None }
    }

    /// Reads the value at time `now`: nothing was ever set, the value is
    /// stale, or the value itself.
    pub fn get(&self, now: u64) -> (r: DelayedResult<&T>)
        ensures
            match self.spec_data() {
                None => r is Undefined,
                Some(_) => {
                    if self.spec_outdated(now) {
                        r is Outdated
                    } else {
                        r matches DelayedResult::Ready(v) && Some(*v) == self.spec_data()
                    }
                },
            },
    {
        match &self.data {
            None => DelayedResult::Undefined,
            Some(value) => {
                let stale = match self.timeout {
                    Some(t) => {
                        match self.last_update.checked_add(t) {
                            Some(deadline) => deadline < now,
                            None => false,
                        }
                    },
                    None => false,
                };
                if stale {
                    DelayedResult::Outdated
                } else {
                    DelayedResult::Ready(value)
                }
            },
        }
    }

    /// Sets the staleness bound, in milliseconds.
    pub fn with_timeout(self, timeout: u64) -> (r: Self)
        ensures
            r.spec_data() == self.spec_data(),
            r.spec_last_update() == self.spec_last_update(),
            r.spec_timeout() == Some(timeout),
    {
        Self { timeout: Some(timeout), ..self }
    }

    /// Sets the value; the creation time is not touched.
    pub fn with_data(self, data: T) -> (r: Self)
        ensures
            r.spec_data() == Some(data),
            r.spec_last_update() == self.spec_last_update(),
            r.spec_timeout() == self.spec_timeout(),
    {
        Self { data: Some(data), ..self }
    }
}

} // verus!
