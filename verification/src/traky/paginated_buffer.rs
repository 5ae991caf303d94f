//! A loop longer than what memory holds, kept as pages: the buffer holds one
//! page at a time and asks its caller for the next one, which the caller
//! loads from storage or makes blank, and saves the pages that were written.

use vstd::prelude::*;

verus! {

/// The sample all pages belong to, until samples can be chosen.
pub const HARDCODED_PARENT: usize = 8;

/// Number of samples a page holds.
pub const PAGE_SIZE: usize = 512;

#[verifier::external_type_specification]
#[verifier::external_body]
#[verifier::reject_recursive_types(T)]
pub struct ExQueueConsumer<'a, T, const N: usize>(heapless::spsc::Consumer<'a, T, N>);

#[verifier::external_type_specification]
#[verifier::external_body]
#[verifier::reject_recursive_types(T)]
pub struct ExQueueProducer<'a, T, const N: usize>(heapless::spsc::Producer<'a, T, N>);

/// `heapless::spsc::Consumer::dequeue`: the item at the front of the queue,
/// if there is one. What the queue holds is up to its producer, so nothing is
/// said of the result.
#[verifier::external_body]
fn queue_dequeue<T>(consumer: &mut heapless::spsc::Consumer<'_, T, 4>) -> Option<T> {
    consumer.dequeue()
}

/// `heapless::spsc::Producer::enqueue`: appends `value` unless the queue is
/// full, in which case it hands `value` back. Whether it is full is up to the
/// consumer, so nothing more is said.
#[verifier::external_body]
fn queue_enqueue<T>(producer: &mut heapless::spsc::Producer<'_, T, 4>, value: T) -> (r: Result<(), T>)
    ensures
        (match r {
            Ok(_) => true,
            Err(returned) => returned == value,
        }),
{
    producer.enqueue(value)
}

/// The recording the pages belong to.
#[derive(Clone, Copy, Debug, PartialEq, Eq, Structural)]
pub struct Sample {
    /// Number of samples recorded so far.
    pub length: usize,
}

impl Sample {
    pub fn new() -> (r: Self)
        ensures
            r == (Sample { length: 0 }),
    {
        Self { length: 0 }
    }
}

/// Names a page: `Load` one that storage holds, `Blank` one past the end of
/// the recording. Each holds the index of the sample and of the page.
#[derive(Clone, Copy, Debug, PartialEq, Eq, Structural)]
pub enum PageRequest {
    Load(usize, usize),
    Blank(usize, usize),
}

impl PageRequest {
    /// Whether the request is for the first page of the loop, which the
    /// caller keeps at hand; no request is, for now.
    pub fn is_first(&self) -> (r: bool)
        ensures
            !r,
    {
        false
    }
}

/// A page of a sample.
#[derive(Clone, Copy, Debug, PartialEq, Eq, Structural)]
pub struct Page {
    pub parent_index: usize,
    pub page_index: usize,
    /// Whether the page was written since it was loaded.
    pub is_dirty: bool,
}

/// The request a page answers: a page that holds recorded samples is one
/// to load, a clean one a blank one.
pub open spec fn signature_of(page: Page) -> PageRequest {
    if page.is_dirty {
        PageRequest::Load(page.parent_index, page.page_index)
    } else {
        PageRequest::Blank(page.parent_index, page.page_index)
    }
}

impl Page {
    pub fn new(parent_index: usize, page_index: usize) -> (r: Self)
        ensures
            r == (Page { parent_index, page_index, is_dirty: false }),
    {
        Self { parent_index, page_index, is_dirty: false }
    }

    pub fn index(&self) -> (r: usize)
        ensures
            r == self.page_index,
    {
        self.page_index
    }

    pub fn is_dirty(&self) -> (r: bool)
        ensures
            r == self.is_dirty,
    {
        self.is_dirty
    }

    /// The request this page answers.
    pub fn signature(&self) -> (r: PageRequest)
        ensures
            r == signature_of(*self),
    {
        if self.is_dirty {
            PageRequest::Load(self.parent_index, self.page_index)
        } else {
            PageRequest::Blank(self.parent_index, self.page_index)
        }
    }
}

/// What the control loop asks of the buffer.
#[derive(Clone, Copy, Debug, PartialEq, Eq, Structural)]
pub struct DSPConfig {}

impl DSPConfig {
    pub fn new() -> (r: Self)
        ensures
            r == (DSPConfig {}),
    {
        Self {}
    }

    /// Whether to record; recording is not asked for yet.
    pub fn record(&self) -> (r: bool)
        ensures
            !r,
    {
        false
    }
}

/// The position in a sample and the page it falls on.
#[derive(Clone, Copy, Debug, PartialEq, Eq, Structural)]
pub struct PaginatedBuffer {
    pub active_page: Option<Page>,
    pub recording: bool,
    /// Position in the sample.
    pub pointer: usize,
    pub sample: Sample,
}

/// Position `pointer` lies within the sample or at its end.
pub open spec fn within_sample(buffer: PaginatedBuffer) -> bool {
    buffer.pointer <= buffer.sample.length
}

/// The buffer after `samples` more samples passed it: a recording buffer
/// marks its page dirty, the position moves on and the sample grows to
/// reach it.
pub open spec fn processed(buffer: PaginatedBuffer, samples: usize) -> PaginatedBuffer {
    let pointer = (buffer.pointer + samples) as usize;
    PaginatedBuffer {
        active_page: if buffer.recording {
            Some(Page { is_dirty: true, ..buffer.active_page.unwrap() })
        } else {
            buffer.active_page
        },
        pointer,
        sample: Sample {
            length: if pointer > buffer.sample.length {
                pointer
            } else {
                buffer.sample.length
            },
        },
        ..buffer
    }
}

/// The page the buffer needs next: the one its position falls on, blank when
/// the position is at the end of the sample.
pub open spec fn next_request(buffer: PaginatedBuffer) -> PageRequest {
    if buffer.pointer == buffer.sample.length {
        PageRequest::Blank(HARDCODED_PARENT, buffer.pointer / PAGE_SIZE)
    } else {
        PageRequest::Load(HARDCODED_PARENT, buffer.pointer / PAGE_SIZE)
    }
}

/// Whether the position has passed the end of the active page.
pub open spec fn page_full(buffer: PaginatedBuffer) -> bool {
    buffer.pointer - buffer.active_page.unwrap().page_index * PAGE_SIZE >= PAGE_SIZE
}

impl PaginatedBuffer {
    pub fn from_sample(sample: Sample) -> (r: Self)
        ensures
            r == (PaginatedBuffer { active_page: None, recording: false, pointer: 0, sample }),
            within_sample(r),
    {
        Self { active_page: None, recording: false, pointer: 0, sample }
    }

    pub fn set_page(&mut self, page: Page)
        ensures
            *final(self) == (PaginatedBuffer { active_page: Some(page), ..*old(self) }),
    {
        self.active_page = Some(page);
    }

    pub fn take_page(&mut self) -> (r: Page)
        requires
            old(self).active_page is Some,
        ensures
            old(self).active_page == Some(r),
            *final(self) == (PaginatedBuffer { active_page: None, ..*old(self) }),
    {
        self.active_page.take().unwrap()
    }

    pub fn has_page(&self) -> (r: bool)
        ensures
            r == self.active_page is Some,
    {
        self.active_page.is_some()
    }

    pub fn arm_recording(&mut self, record: bool)
        ensures
            *final(self) == (PaginatedBuffer { recording: record, ..*old(self) }),
    {
        self.recording = record;
    }

    /// Lets `samples` samples pass: a recording buffer marks its page dirty,
    /// the position moves on and the sample grows to reach it.
    pub fn process(&mut self, samples: usize)
        requires
            old(self).recording ==> old(self).active_page is Some,
            old(self).pointer + samples <= usize::MAX,
        ensures
            *final(self) == processed(*old(self), samples),
            within_sample(*final(self)),
            final(self).sample.length >= old(self).sample.length,
    {
        if self.recording {
            let mut page = self.active_page.unwrap();
            page.is_dirty = true;
            self.active_page = Some(page);
        }
        self.pointer += samples;
        if self.pointer > self.sample.length {
            self.sample.length = self.pointer;
        }
    }

    pub fn is_page_full(&self) -> (r: bool)
        requires
            self.active_page is Some,
            self.active_page.unwrap().page_index * PAGE_SIZE <= self.pointer,
        ensures
            r == page_full(*self),
    {
        let page_pointer = self.pointer - (self.active_page.unwrap().index() * PAGE_SIZE);
        page_pointer >= PAGE_SIZE
    }

    /// Jumps back to the beginning of the sample.
    pub fn reset_position(&mut self)
        ensures
            *final(self) == (PaginatedBuffer { pointer: 0, ..*old(self) }),
            within_sample(*final(self)),
    {
        self.pointer = 0;
    }

    /// The page the buffer needs next.
    pub fn wants_next(&self) -> (r: PageRequest)
        ensures
            r == next_request(*self),
    {
        if self.pointer == self.sample.length {
            PageRequest::Blank(HARDCODED_PARENT, self.pointer / PAGE_SIZE)
        } else {
            PageRequest::Load(HARDCODED_PARENT, self.pointer / PAGE_SIZE)
        }
    }
}

/// Runs in the audio loop: feeds the buffer pages, hands written pages to
/// storage and passes on what the control loop asks.
#[derive(Clone, Copy, Debug, PartialEq, Eq, Structural)]
pub struct Caller {
    pub buffer: Option<PaginatedBuffer>,
    /// The first page of the loop, kept at hand to jump back to.
    pub page_1_cache: Option<Page>,
}

impl Caller {
    pub fn new() -> (r: Self)
        ensures
            r == (Caller { buffer: None, page_1_cache: None }),
    {
        Self { buffer: None, page_1_cache: None }
    }

    pub fn set_sample(&mut self, sample: Sample)
        ensures
            *final(self) == (Caller {
                buffer: Some(PaginatedBuffer { active_page: None, recording: false, pointer: 0, sample }),
                ..*old(self)
            }),
    {
        self.buffer = Some(PaginatedBuffer::from_sample(sample));
    }

    /// Applies the configurations in the queue until it is empty. As no
    /// configuration asks for recording yet, recording stops if any came;
    /// nothing else changes.
    pub fn process_configuration_updates(
        &mut self,
        dsp_config_consumer: &mut heapless::spsc::Consumer<'_, DSPConfig, 4>,
    )
        requires
            old(self).buffer is Some,
        ensures
            final(self).buffer == Some(PaginatedBuffer {
                recording: final(self).buffer.unwrap().recording,
                ..old(self).buffer.unwrap()
            }),
            final(self).buffer.unwrap().recording ==> old(self).buffer.unwrap().recording,
            final(self).page_1_cache == old(self).page_1_cache,
    {
        // The loop ends when the queue is empty; should the control loop keep
        // it from ever emptying, it ends after as many items as a `usize` counts.
        let waiting = usize::MAX;
        let mut handled: usize = 0;
        while handled < waiting
            invariant
                handled <= waiting,
                self.buffer == Some(PaginatedBuffer {
                    recording: self.buffer.unwrap().recording,
                    ..old(self).buffer.unwrap()
                }),
                self.buffer.unwrap().recording ==> old(self).buffer.unwrap().recording,
                self.page_1_cache == old(self).page_1_cache,
            decreases waiting - handled,
        {
            match queue_dequeue(dsp_config_consumer) {
                Some(dsp_config) => {
                    let mut buffer = self.buffer.unwrap();
                    buffer.arm_recording(dsp_config.record());
                    self.buffer = Some(buffer);
                },
                None => {
                    break;
                },
            }
            handled += 1;
        }
    }

    pub fn is_waiting_for_page(&self) -> (r: bool)
        requires
            self.buffer is Some,
        ensures
            r == !(self.buffer.unwrap().active_page is Some),
    {
        !self.buffer.unwrap().has_page()
    }

    /// Offers `page` to the buffer, which takes it when it is the page it
    /// asks for. Returns whether it took it.
    pub fn offer_page(&mut self, page: Page) -> (r: bool)
        requires
            old(self).buffer is Some,
        ensures
            r == (signature_of(page) == next_request(old(self).buffer.unwrap())),
            r ==> *final(self) == (Caller {
                buffer: Some(PaginatedBuffer { active_page: Some(page), ..old(self).buffer.unwrap() }),
                ..*old(self)
            }),
            !r ==> *final(self) == *old(self),
    {
        let mut buffer = self.buffer.unwrap();
        if page.signature() == buffer.wants_next() {
            buffer.set_page(page);
            self.buffer = Some(buffer);
            true
        } else {
            false
        }
    }

    /// Takes the pages storage sent, one by one, until the queue is empty or
    /// the buffer takes one as the page it asks for; the pages before it are
    /// dropped. Returns whether the buffer took one.
    pub fn try_fetching_next_page(
        &mut self,
        load_response_consumer: &mut heapless::spsc::Consumer<'_, Page, 4>,
    ) -> (r: bool)
        requires
            old(self).buffer is Some,
        ensures
            final(self).page_1_cache == old(self).page_1_cache,
            r ==> (exists|page: Page|
                signature_of(page) == next_request(old(self).buffer.unwrap())
                && final(self).buffer == Some(PaginatedBuffer {
                    active_page: Some(page),
                    ..old(self).buffer.unwrap()
                })),
            !r ==> final(self).buffer == old(self).buffer,
    {
        let mut buffer = self.buffer.unwrap();
        let wanted = buffer.wants_next();

        if wanted.is_first() {
            buffer.set_page(self.page_1_cache.take().unwrap());
            self.buffer = Some(buffer);
            return true;
        }

        // The loop ends when the queue is empty or the page is found; should
        // storage keep it from ever emptying, it ends after as many pages as a
        // `usize` counts.
        let waiting = usize::MAX;
        let mut looked: usize = 0;
        while looked < waiting
            invariant
                looked <= waiting,
                buffer == old(self).buffer.unwrap(),
                wanted == next_request(buffer),
                *self == *old(self),
                self.buffer is Some,
            decreases waiting - looked,
        {
            match queue_dequeue(load_response_consumer) {
                Some(page) => {
                    if self.offer_page(page) {
                        return true;
                    }
                },
                None => {
                    break;
                },
            }
            looked += 1;
        }

        false
    }

    /// Asks storage for the page the buffer needs next. A full queue hands
    /// the request back.
    pub fn start_loading_next_page(
        &mut self,
        load_request_producer: &mut heapless::spsc::Producer<'_, PageRequest, 4>,
    ) -> (r: Result<(), PageRequest>)
        requires
            old(self).buffer is Some,
        ensures
            *final(self) == *old(self),
            (match r {
                Ok(_) => true,
                Err(request) => request == next_request(old(self).buffer.unwrap()),
            }),
    {
        let next_page_request = self.buffer.unwrap().wants_next();
        queue_enqueue(load_request_producer, next_page_request)
    }

    /// Lets `samples` samples pass the buffer.
    pub fn process(&mut self, samples: usize)
        requires
            old(self).buffer is Some,
            old(self).buffer.unwrap().recording ==> old(self).buffer.unwrap().active_page is Some,
            old(self).buffer.unwrap().pointer + samples <= usize::MAX,
        ensures
            *final(self) == (Caller {
                buffer: Some(processed(old(self).buffer.unwrap(), samples)),
                ..*old(self)
            }),
    {
        let mut buffer = self.buffer.unwrap();
        buffer.process(samples);
        self.buffer = Some(buffer);
    }

    pub fn has_full_page(&self) -> (r: bool)
        requires
            self.buffer is Some,
            self.buffer.unwrap().active_page is Some,
            self.buffer.unwrap().active_page.unwrap().page_index * PAGE_SIZE
                <= self.buffer.unwrap().pointer,
        ensures
            r == page_full(self.buffer.unwrap()),
    {
        self.buffer.unwrap().is_page_full()
    }

    /// Takes the page out of the buffer, keeps it at hand if it is the first
    /// of the loop, and sends it to storage if it was written. A full queue
    /// hands the page back.
    pub fn start_saving(
        &mut self,
        save_request_producer: &mut heapless::spsc::Producer<'_, Page, 4>,
    ) -> (r: Result<(), Page>)
        requires
            old(self).buffer is Some,
            old(self).buffer.unwrap().active_page is Some,
        ensures
            ({
                let page = old(self).buffer.unwrap().active_page.unwrap();
                &&& final(self).buffer == Some(PaginatedBuffer {
                    active_page: None,
                    ..old(self).buffer.unwrap()
                })
                &&& final(self).page_1_cache == (if page.page_index == 0 {
                    Some(page)
                } else {
                    old(self).page_1_cache
                })
                &&& !page.is_dirty ==> r is Ok
                &&& r is Err ==> r == Err::<(), Page>(page)
            }),
    {
        let mut buffer = self.buffer.unwrap();
        let page = buffer.take_page();
        self.buffer = Some(buffer);

        if page.index() == 0 {
            self.page_1_cache = Some(page);
        }

        if page.is_dirty() {
            queue_enqueue(save_request_producer, page)
        } else {
            Ok(())
        }
    }

    /// Jumps back to the beginning of the sample.
    pub fn reset_position(&mut self)
        requires
            old(self).buffer is Some,
        ensures
            *final(self) == (Caller {
                buffer: Some(PaginatedBuffer { pointer: 0, ..old(self).buffer.unwrap() }),
                ..*old(self)
            }),
    {
        let mut buffer = self.buffer.unwrap();
        buffer.reset_position();
        self.buffer = Some(buffer);
    }
}

/// Jumping back to the beginning asks for the first page of the sample: a
/// blank one when nothing was recorded, else the one storage holds.
pub proof fn lemma_reset_asks_for_first_page(buffer: PaginatedBuffer)
    ensures
        next_request(PaginatedBuffer { pointer: 0, ..buffer }) == (if buffer.sample.length == 0 {
            PageRequest::Blank(HARDCODED_PARENT, 0)
        } else {
            PageRequest::Load(HARDCODED_PARENT, 0)
        }),
{
}

/// While the buffer records at the end of the sample, it keeps asking for
/// blank pages: after samples pass, the position is still the end.
pub proof fn lemma_recording_at_end_asks_for_blank_pages(buffer: PaginatedBuffer, samples: usize)
    requires
        buffer.pointer == buffer.sample.length,
        buffer.pointer + samples <= usize::MAX,
        buffer.recording ==> buffer.active_page is Some,
    ensures
        next_request(processed(buffer, samples)) == PageRequest::Blank(
            HARDCODED_PARENT,
            ((buffer.pointer + samples) / PAGE_SIZE as int) as usize,
        ),
{
}

} // verus!
