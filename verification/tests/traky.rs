use heapless::spsc::Queue;

use proton::traky::dynamic_buffer::DynamicBuffer;
use proton::traky::paginated_buffer::{
    Caller, DSPConfig, Page, PageRequest, PaginatedBuffer, Sample, HARDCODED_PARENT, PAGE_SIZE,
};
use proton::traky::{is_volume_attribute, upper_power_of_two, VOLUME_ATTRIBUTE};

#[test]
fn full_end_to_end() {
    let mut dynamic_buffer = DynamicBuffer::new();

    let save_exists = true;
    if save_exists {
        dynamic_buffer.load();
    }
}

#[test]
fn full_flow_starting_with_existing_long_sample() {}

#[test]
fn full_flow_starting_from_nothing_with_short_sample() {}

#[test]
fn upper_power_of_two_rounds_up() {
    assert_eq!(upper_power_of_two(0), 0);
    assert_eq!(upper_power_of_two(1), 1);
    assert_eq!(upper_power_of_two(2), 2);
    assert_eq!(upper_power_of_two(3), 4);
    assert_eq!(upper_power_of_two(5), 8);
    assert_eq!(upper_power_of_two(1024), 1024);
    assert_eq!(upper_power_of_two(1025), 2048);
    assert_eq!(upper_power_of_two(2 * 48_000 * 20), 2_097_152);
    assert_eq!(upper_power_of_two(0x8000_0000), 0x8000_0000);
}

#[test]
fn fresh_buffer_asks_for_a_blank_first_page() {
    let buffer = PaginatedBuffer::from_sample(Sample::new());
    assert!(buffer.wants_next() == PageRequest::Blank(HARDCODED_PARENT, 0));
    assert!(!buffer.has_page());
}

#[test]
fn loaded_sample_asks_for_pages_to_load() {
    let mut buffer = PaginatedBuffer::from_sample(Sample { length: 3 * PAGE_SIZE });
    assert!(buffer.wants_next() == PageRequest::Load(HARDCODED_PARENT, 0));
    buffer.set_page(Page::new(HARDCODED_PARENT, 0));
    buffer.process(PAGE_SIZE);
    assert!(buffer.is_page_full());
    assert!(buffer.wants_next() == PageRequest::Load(HARDCODED_PARENT, 1));
    buffer.reset_position();
    assert!(buffer.wants_next() == PageRequest::Load(HARDCODED_PARENT, 0));
}

#[test]
fn recording_marks_the_page_dirty_and_grows_the_sample() {
    let mut buffer = PaginatedBuffer::from_sample(Sample::new());
    buffer.set_page(Page::new(HARDCODED_PARENT, 0));
    buffer.process(32);
    assert!(!buffer.active_page.unwrap().is_dirty());
    buffer.arm_recording(true);
    buffer.process(32);
    assert!(buffer.active_page.unwrap().is_dirty());
    assert_eq!(buffer.sample.length, 64);
    assert_eq!(buffer.pointer, 64);
    assert!(!buffer.is_page_full());
    let page = buffer.take_page();
    assert!(page.is_dirty());
    assert_eq!(page.index(), 0);
    assert!(!buffer.has_page());
}

#[test]
fn page_signature_tells_written_pages_from_blank_ones() {
    let mut page = Page::new(HARDCODED_PARENT, 2);
    assert!(page.signature() == PageRequest::Blank(HARDCODED_PARENT, 2));
    page.is_dirty = true;
    assert!(page.signature() == PageRequest::Load(HARDCODED_PARENT, 2));
    assert!(!page.signature().is_first());
}

#[test]
fn caller_fills_a_blank_first_page_and_keeps_it_at_hand() {
    let mut save_request_queue: Queue<Page, 4> = Queue::new();
    let (mut save_request_producer, mut save_request_consumer) = save_request_queue.split();
    let mut load_request_queue: Queue<PageRequest, 4> = Queue::new();
    let (mut load_request_producer, mut load_request_consumer) = load_request_queue.split();
    let mut load_response_queue: Queue<Page, 4> = Queue::new();
    let (mut load_response_producer, mut load_response_consumer) = load_response_queue.split();
    let mut dsp_config_queue: Queue<DSPConfig, 4> = Queue::new();
    let (mut dsp_config_producer, mut dsp_config_consumer) = dsp_config_queue.split();

    let mut caller = Caller::new();
    caller.set_sample(Sample::new());
    assert!(caller.start_loading_next_page(&mut load_request_producer).is_ok());
    assert!(
        load_request_consumer.dequeue().unwrap() == PageRequest::Blank(HARDCODED_PARENT, 0)
    );

    assert!(caller.is_waiting_for_page());
    assert!(!caller.try_fetching_next_page(&mut load_response_consumer));

    load_response_producer
        .enqueue(Page::new(HARDCODED_PARENT, 1))
        .ok()
        .unwrap();
    load_response_producer
        .enqueue(Page::new(HARDCODED_PARENT, 0))
        .ok()
        .unwrap();
    assert!(caller.try_fetching_next_page(&mut load_response_consumer));
    assert!(!caller.is_waiting_for_page());

    dsp_config_producer.enqueue(DSPConfig::new()).ok().unwrap();
    caller.process_configuration_updates(&mut dsp_config_consumer);
    assert!(dsp_config_consumer.dequeue().is_none());

    let mut ticks = 0;
    while !caller.has_full_page() {
        caller.process(32);
        ticks += 1;
    }
    assert_eq!(ticks, PAGE_SIZE / 32);

    assert!(caller.start_saving(&mut save_request_producer).is_ok());
    assert!(caller.is_waiting_for_page());
    assert!(caller.page_1_cache == Some(Page::new(HARDCODED_PARENT, 0)));
    assert!(save_request_consumer.dequeue().is_none());

    assert!(caller.start_loading_next_page(&mut load_request_producer).is_ok());
    assert!(
        load_request_consumer.dequeue().unwrap() == PageRequest::Blank(HARDCODED_PARENT, 1)
    );

    caller.reset_position();
    assert!(caller.buffer.unwrap().wants_next() == PageRequest::Load(HARDCODED_PARENT, 0));
}

#[test]
fn caller_sends_written_pages_to_storage() {
    let mut save_request_queue: Queue<Page, 4> = Queue::new();
    let (mut save_request_producer, mut save_request_consumer) = save_request_queue.split();

    let mut caller = Caller::new();
    caller.set_sample(Sample::new());
    let mut buffer = caller.buffer.unwrap();
    buffer.set_page(Page::new(HARDCODED_PARENT, 0));
    buffer.arm_recording(true);
    caller.buffer = Some(buffer);

    caller.process(PAGE_SIZE);
    assert!(caller.has_full_page());
    assert!(caller.start_saving(&mut save_request_producer).is_ok());

    let saved = save_request_consumer.dequeue().unwrap();
    assert!(saved.is_dirty());
    assert_eq!(saved.index(), 0);
    assert!(caller.page_1_cache == Some(saved));
}

#[test]
fn full_save_queue_hands_the_page_back() {
    let mut queue: Queue<Page, 4> = Queue::new();
    let (mut producer, _consumer) = queue.split();
    for index in 0..3 {
        producer.enqueue(Page::new(HARDCODED_PARENT, index)).ok().unwrap();
    }

    let mut caller = Caller::new();
    caller.set_sample(Sample::new());
    let mut buffer = caller.buffer.unwrap();
    let mut page = Page::new(HARDCODED_PARENT, 3);
    page.is_dirty = true;
    buffer.set_page(page);
    caller.buffer = Some(buffer);

    assert!(caller.start_saving(&mut producer) == Err(page));
    assert!(caller.page_1_cache.is_none());
}

#[test]
fn only_the_volume_attribute_sets_the_volume() {
    assert!(is_volume_attribute(VOLUME_ATTRIBUTE));
    assert!(is_volume_attribute("volume"));
    assert!(!is_volume_attribute("volume 1"));
    assert!(!is_volume_attribute(""));
}

#[test]
fn caller_takes_only_the_page_it_asks_for() {
    let mut caller = Caller::new();
    caller.set_sample(Sample::new());
    assert!(!caller.offer_page(Page::new(HARDCODED_PARENT, 1)));
    assert!(caller.is_waiting_for_page());
    assert!(caller.offer_page(Page::new(HARDCODED_PARENT, 0)));
    assert!(!caller.is_waiting_for_page());
    assert!(caller.buffer.unwrap().active_page == Some(Page::new(HARDCODED_PARENT, 0)));
}
