use cex_core::dump::{
    after_miss, dump_step, plan_sink, Args, DataType, DumpAction, Format, OutputTarget, PollOutcome,
    SinkPlan, MAX_MISS_CNT,
};
use cex_core::error::ChannelError;
use cex_core::listing::{
    bytes_le, finish_listing, listable_name, listable_names, next_probe, slash_alternative,
    sort_by_name, ListAccum, Listing,
};
use cex_core::ring::HeaderSnapshot;
use cex_core::shm_chan::{
    attach_checks, backoff, check_capacity, check_overwrite, layout_from_header, ready_poll, shm_info_from_header,
    Backoff, ReadyPoll, READY_WAIT_TIMEOUT_NANOS, SPIN_LIMIT,
};
use cex_core::{ChannelConfig, ReaderStart, ShmInfo, CHANNEL_CAP, CH_KLINE_V1};

fn info(name: &str) -> ShmInfo {
    ShmInfo {
        name: name.to_string(),
        total_bytes: 128,
        capacity: 8,
        item_size: 8,
        allow_overwrite: false,
        write_pos: 0,
        read_pos: 0,
        queued: 0,
        used_bytes: 0,
    }
}

fn header(write: u64, read: u64, capacity: u64, item_size: u64, ready: bool) -> HeaderSnapshot {
    HeaderSnapshot { write, read, capacity, item_size, overwrite: true, ready }
}

#[test]
fn config_defaults() {
    let c = ChannelConfig::new(16);
    assert_eq!(c.capacity, 16);
    assert!(!c.allow_overwrite);
    let c = c.with_overwrite(true);
    assert_eq!(c.capacity, 16);
    assert!(c.allow_overwrite);
    assert_eq!(ReaderStart::default(), ReaderStart::FromBeginning);
    assert_eq!(CHANNEL_CAP, 100 * 3600 * 24);
    assert_eq!(CH_KLINE_V1, "CTPKlineV1");
}

#[test]
fn shm_info_reports() {
    let i = shm_info_from_header("/ring".to_string(), 4096, &header(10, 4, 8, 16, true)).unwrap();
    assert_eq!(i.name, "/ring");
    assert_eq!((i.total_bytes, i.capacity, i.item_size), (4096, 8, 16));
    assert_eq!((i.write_pos, i.read_pos, i.queued, i.used_bytes), (10, 4, 6, 96));
    assert!(i.allow_overwrite);
    let i = shm_info_from_header("r".to_string(), 1, &header(100, 0, 8, 16, true)).unwrap();
    assert_eq!(i.queued, 8);
    let i = shm_info_from_header("r".to_string(), 1, &header(u64::MAX, 0, u64::MAX, u64::MAX, true))
        .unwrap();
    assert_eq!(i.used_bytes, usize::MAX);
}

#[test]
fn shm_info_refusals() {
    assert!(matches!(
        shm_info_from_header("r".to_string(), 1, &header(0, 0, 8, 8, false)),
        Err(ChannelError::NotInitialized)
    ));
    assert!(matches!(
        shm_info_from_header("r".to_string(), 1, &header(0, 0, 0, 8, true)),
        Err(ChannelError::InvalidCapacity)
    ));
    assert!(matches!(
        shm_info_from_header("r".to_string(), 1, &header(0, 0, 8, 0, true)),
        Err(ChannelError::InvalidCapacity)
    ));
}

#[test]
fn existing_layouts() {
    let l = layout_from_header::<u64>(32, 8).unwrap();
    assert_eq!((l.capacity, l.item_size, l.total_size), (32, 8, 64 + 256));
    assert!(matches!(
        layout_from_header::<u64>(32, 4),
        Err(ChannelError::TypeMismatch { expected: 8, found: 4 })
    ));
    assert!(matches!(layout_from_header::<u64>(0, 8), Err(ChannelError::InvalidCapacity)));
}

#[test]
fn existing_ring_checks() {
    assert!(check_capacity(8, 8).is_ok());
    assert!(matches!(
        check_capacity(8, 16),
        Err(ChannelError::CapacityMismatch { expected: 8, found: 16 })
    ));
    assert!(check_overwrite(true, true).is_ok());
    assert!(matches!(
        check_overwrite(false, true),
        Err(ChannelError::OverwriteMismatch { expected: false, found: true })
    ));
}

#[test]
fn waiting() {
    assert_eq!(ready_poll(true, u128::MAX), ReadyPoll::Ready);
    assert_eq!(ready_poll(false, 0), ReadyPoll::Wait);
    assert_eq!(ready_poll(false, READY_WAIT_TIMEOUT_NANOS), ReadyPoll::Wait);
    assert_eq!(ready_poll(false, READY_WAIT_TIMEOUT_NANOS + 1), ReadyPoll::TimedOut);
    assert_eq!(backoff(0), Backoff::Spin { spins: 1 });
    assert_eq!(backoff(SPIN_LIMIT - 1), Backoff::Spin { spins: SPIN_LIMIT });
    assert_eq!(backoff(SPIN_LIMIT), Backoff::Sleep);
}

#[test]
fn listing_names() {
    assert!(listable_name("CTPKlineV1"));
    assert!(!listable_name(".hidden"));
    assert!(!listable_name(""));
    let raw = vec![
        "b".to_string(),
        ".x".to_string(),
        "a".to_string(),
        "b".to_string(),
        "".to_string(),
    ];
    assert_eq!(listable_names(&raw), vec!["b".to_string(), "a".to_string()]);
    assert_eq!(slash_alternative("ring"), Some("/ring".to_string()));
    assert_eq!(slash_alternative("/ring"), None);
    assert_eq!(slash_alternative(""), Some("/".to_string()));
}

#[test]
fn byte_order() {
    assert!(bytes_le(b"abc", b"abd"));
    assert!(bytes_le(b"ab", b"abc"));
    assert!(!bytes_le(b"abc", b"ab"));
    assert!(bytes_le(b"", b""));
    assert!(!bytes_le(b"b", b"a"));
}

#[test]
fn sorting_reports() {
    let sorted = sort_by_name(vec![info("c"), info("/a"), info("b"), info("a")]);
    let names: Vec<String> = sorted.iter().map(|i| i.name.clone()).collect();
    assert_eq!(names, vec!["/a", "a", "b", "c"]);
}

#[test]
fn listing_outcomes() {
    let mut acc = ListAccum::new();
    assert!(acc.absorb(Ok(info("z"))));
    assert!(!acc.absorb(Err(ChannelError::NotInitialized)));
    assert!(acc.last_shm_err.is_none());
    assert!(!acc.absorb(Err(ChannelError::InvalidCapacity)));
    assert!(acc.absorb(Ok(info("y"))));
    let list = finish_listing(acc, None).unwrap();
    assert_eq!(list[0].name, "y");
    assert_eq!(list[1].name, "z");

    let mut acc = ListAccum::new();
    assert!(!acc.absorb(Err(ChannelError::InvalidCapacity)));
    let io = std::io::Error::new(std::io::ErrorKind::Other, "dir");
    assert!(matches!(finish_listing(acc, Some(io)), Err(ChannelError::InvalidCapacity)));

    let acc = ListAccum::new();
    let io = std::io::Error::new(std::io::ErrorKind::Other, "dir");
    assert!(matches!(finish_listing(acc, Some(io)), Err(ChannelError::ListShm(_))));

    assert!(finish_listing(ListAccum::new(), None).unwrap().is_empty());
}

#[test]
fn sink_plans() {
    let a = Args { data_type: DataType::Kline, format: Format::Json, output: None };
    assert!(matches!(plan_sink(&a), Some(SinkPlan::Json(OutputTarget::Stdout))));
    let a = Args { data_type: DataType::Kline, format: Format::Csv, output: Some("o.csv".to_string()) };
    assert!(matches!(plan_sink(&a), Some(SinkPlan::Csv(OutputTarget::File("o.csv")))));
    let a = Args { data_type: DataType::Kline, format: Format::Parquet, output: None };
    assert!(plan_sink(&a).is_none());
    let a = Args { data_type: DataType::Kline, format: Format::Parquet, output: Some("k.parquet".to_string()) };
    assert!(matches!(plan_sink(&a), Some(SinkPlan::Parquet("k.parquet"))));
    assert!(matches!(OutputTarget::from(Some("f")), OutputTarget::File("f")));
    assert!(matches!(OutputTarget::from(None), OutputTarget::Stdout));
}

#[test]
fn miss_counting() {
    assert_eq!(after_miss(0), (1, false));
    assert_eq!(after_miss(MAX_MISS_CNT - 2), (MAX_MISS_CNT - 1, false));
    assert_eq!(after_miss(MAX_MISS_CNT - 1), (MAX_MISS_CNT, true));
}

#[test]
fn attach_check_order() {
    let h = HeaderSnapshot { write: 0, read: 0, capacity: 32, item_size: 8, overwrite: true, ready: true };
    let l = attach_checks::<u64>(&h, Some(32), Some(true)).unwrap();
    assert_eq!((l.capacity, l.item_size), (32, 8));
    assert!(attach_checks::<u64>(&h, None, None).is_ok());
    assert!(matches!(
        attach_checks::<u32>(&h, Some(16), Some(false)),
        Err(ChannelError::TypeMismatch { expected: 4, found: 8 })
    ));
    assert!(matches!(
        attach_checks::<u64>(&h, Some(16), Some(false)),
        Err(ChannelError::CapacityMismatch { expected: 16, found: 32 })
    ));
    assert!(matches!(
        attach_checks::<u64>(&h, Some(32), Some(false)),
        Err(ChannelError::OverwriteMismatch { expected: false, found: true })
    ));
    let z = HeaderSnapshot { capacity: 0, ..h };
    assert!(matches!(attach_checks::<u64>(&z, Some(0), None), Err(ChannelError::InvalidCapacity)));
}

#[test]
fn probing_names() {
    assert_eq!(next_probe("ring", true), None);
    assert_eq!(next_probe("ring", false), Some("/ring".to_string()));
    assert_eq!(next_probe("/ring", false), None);
}

#[test]
fn dump_steps() {
    assert_eq!(dump_step(5, PollOutcome::Written), (0, DumpAction::Continue));
    assert_eq!(dump_step(5, PollOutcome::WriteFailed), (0, DumpAction::Stop));
    assert_eq!(dump_step(5, PollOutcome::ReadFailed), (5, DumpAction::Stop));
    assert_eq!(dump_step(5, PollOutcome::Empty), (6, DumpAction::Sleep));
    assert_eq!(dump_step(MAX_MISS_CNT - 1, PollOutcome::Empty), (MAX_MISS_CNT, DumpAction::SleepThenStop));
    assert_eq!(dump_step(MAX_MISS_CNT, PollOutcome::Empty), (MAX_MISS_CNT, DumpAction::SleepThenStop));
}

fn info_sized(name: &str, total_bytes: usize) -> ShmInfo {
    ShmInfo { total_bytes, ..info(name) }
}

#[test]
fn sorting_is_stable() {
    let sorted = sort_by_name(vec![info_sized("b", 1), info_sized("a", 2), info_sized("b", 3), info_sized("a", 4)]);
    let got: Vec<(String, usize)> = sorted.iter().map(|i| (i.name.clone(), i.total_bytes)).collect();
    assert_eq!(
        got,
        vec![("a".to_string(), 2), ("a".to_string(), 4), ("b".to_string(), 1), ("b".to_string(), 3)]
    );
}

#[test]
fn listing_probes_each_name_once() {
    let raw = vec!["x".to_string(), ".h".to_string(), "y".to_string(), "x".to_string(), "z".to_string()];
    let mut listing = Listing::new(&raw);
    let mut probes = Vec::new();
    while let Some(probe) = listing.next_name() {
        probes.push(probe.clone());
        let result = match probe.as_str() {
            "x" => Ok(info("x")),
            "/y" => Ok(info("/y")),
            "z" => Err(ChannelError::InvalidCapacity),
            _ => Err(ChannelError::NotInitialized),
        };
        listing.record(result);
    }
    assert_eq!(probes, vec!["x", "y", "/y", "z", "/z"]);
    let list = listing.finish(None).unwrap();
    let names: Vec<String> = list.iter().map(|i| i.name.clone()).collect();
    assert_eq!(names, vec!["/y", "x"]);
}

#[test]
fn listing_reports_errors_when_nothing_found() {
    let raw = vec!["z".to_string()];
    let mut listing = Listing::new(&raw);
    while let Some(probe) = listing.next_name() {
        let _ = probe;
        listing.record(Err(ChannelError::InvalidCapacity));
    }
    assert!(matches!(listing.finish(None), Err(ChannelError::InvalidCapacity)));
    let listing = Listing::new(&vec![]);
    assert!(listing.finish(None).unwrap().is_empty());
}
