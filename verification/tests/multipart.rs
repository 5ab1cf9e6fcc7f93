use sulfite::config::{
    MULTIPART_MAX_OBJECT_SIZE, MULTIPART_MAX_PARTS, MULTIPART_MAX_PART_SIZE,
    MULTIPART_MIN_PART_SIZE,
};
use sulfite::error::{checked_content_length, S3Error};
use sulfite::multipart::{
    byte_range, count_received, requested_range, validate_content_range as check_range,
    validate_received, MultipartPlan,
};

fn assert_partition(object_size: u64, requested_part_size: u64, max_parts: Option<u64>) {
    let plan = MultipartPlan::new(object_size, requested_part_size, max_parts).unwrap();
    assert_eq!(plan.part_count, object_size.div_ceil(plan.part_size));
    if let Some(max_parts) = max_parts {
        assert!(plan.part_count <= max_parts);
    }
    if object_size == 0 {
        assert_eq!(plan.part_count, 0);
        return;
    }

    let parts = plan.parts();
    let first = parts.first().unwrap();
    let last = parts.last().unwrap();
    assert_eq!(first.start, 0);
    assert_eq!(last.end, object_size);
    assert_eq!(first.number, 1);
    assert_eq!(u64::try_from(last.number).unwrap(), plan.part_count);

    for index in [0, plan.part_count / 2, plan.part_count - 1] {
        let part = parts[index as usize];
        assert_eq!(part.start, index * plan.part_size);
        assert_eq!(plan.part(index).start, part.start);
        assert_eq!(plan.part(index).end, part.end);
        assert!(part.length() > 0);
        assert!(part.length() <= plan.part_size);
        if index + 1 < plan.part_count {
            assert_eq!(part.end, parts[index as usize + 1].start);
        }
    }
}

#[test]
fn validates_part_size_and_part_limit() {
    assert!(MultipartPlan::new(100, 0, Some(10)).is_err());
    assert!(MultipartPlan::new(100, 10, Some(0)).is_err());
    assert_eq!(
        MultipartPlan::for_upload(100, MULTIPART_MIN_PART_SIZE - 1).unwrap().part_size,
        MULTIPART_MIN_PART_SIZE
    );
    assert_eq!(
        MultipartPlan::for_upload(100, 0).unwrap().part_size,
        MULTIPART_MIN_PART_SIZE
    );
    assert_eq!(
        MultipartPlan::for_upload(100, MULTIPART_MAX_PART_SIZE + 1).unwrap().part_size,
        MULTIPART_MAX_PART_SIZE
    );
    assert!(
        MultipartPlan::for_upload(MULTIPART_MAX_OBJECT_SIZE + 1, MULTIPART_MAX_PART_SIZE).is_err()
    );
}

#[test]
fn partitions_exact_and_partial_final_parts() {
    assert_partition(40, 20, None);
    assert_partition(45, 20, None);
    assert_partition(1, 20, None);
    assert_partition(0, 20, None);
}

#[test]
fn adapts_to_part_limit_without_overflow() {
    assert_partition(201, 20, Some(10));
    assert_partition(u64::MAX, 20, Some(10_000));
    assert_partition(u64::MAX, u64::MAX - 1, None);
}

#[test]
fn validates_content_range() {
    let plan = MultipartPlan::for_download(42, 20).unwrap();
    let part = plan.parts()[1];
    assert!(check_range(Some("bytes 20-39/42"), part, 42, "test").is_ok());
    assert!(check_range(Some("bytes 20-38/42"), part, 42, "test").is_err());
    assert!(check_range(None, part, 42, "test").is_err());
}

#[test]
fn validates_content_length() {
    assert_eq!(checked_content_length(Some(42)).unwrap(), 42);
    assert!(checked_content_length(Some(-1)).is_err());
    assert!(checked_content_length(None).is_err());
}

#[test]
fn plan_errors_say_what_is_wrong() {
    let no_part_size = MultipartPlan::new(100, 0, None).unwrap_err();
    assert_eq!(
        no_part_size.message(),
        "multipart part size must be greater than zero [ValidationError]"
    );
    let no_parts = MultipartPlan::new(100, 10, Some(0)).unwrap_err();
    assert_eq!(
        no_parts.message(),
        "multipart maximum part count must be greater than zero [ValidationError]"
    );
    let too_many = MultipartPlan::for_download(2147483648, 1).unwrap_err();
    assert_eq!(
        too_many.message(),
        "multipart part count 2147483648 exceeds supported maximum 2147483647 [ValidationError]"
    );
    let too_large = MultipartPlan::for_upload(53687091200001, 1).unwrap_err();
    assert_eq!(
        too_large.message(),
        "object size 53687091200001 exceeds S3 maximum 53687091200000 [ValidationError]"
    );
}

#[test]
fn largest_object_fits_the_limits() {
    let plan = MultipartPlan::for_upload(MULTIPART_MAX_OBJECT_SIZE, 0).unwrap();
    assert_eq!(plan.part_count, MULTIPART_MAX_PARTS);
    assert_eq!(plan.part_size, MULTIPART_MAX_PART_SIZE);
}

#[test]
fn parts_written_in_any_order_give_the_object() {
    let object: Vec<u8> = (0..45u8).collect();
    let plan = MultipartPlan::for_download(45, 20).unwrap();
    let parts = plan.parts();
    assert_eq!(parts.len(), 3);
    let mut joined: Vec<u8> = Vec::new();
    for part in &parts {
        joined.extend_from_slice(&object[part.start as usize..part.end as usize]);
    }
    assert_eq!(joined, object);

    let mut file: Vec<u8> = Vec::new();
    for index in [2usize, 0, 1, 0] {
        let part = parts[index];
        if file.len() < part.end as usize {
            file.resize(part.end as usize, 0);
        }
        file[part.start as usize..part.end as usize]
            .copy_from_slice(&object[part.start as usize..part.end as usize]);
    }
    assert_eq!(file, object);
}

#[test]
fn ranges_name_their_last_byte() {
    assert_eq!(byte_range(0, 1), "bytes=0-0");
    assert_eq!(byte_range(20, 42), "bytes=20-41");
    assert_eq!(requested_range(None).unwrap(), None);
    assert_eq!(requested_range(Some((5, 10))).unwrap(), Some("bytes=5-9".to_owned()));
    assert_eq!(
        requested_range(Some((7, 7))).unwrap_err().message(),
        "Invalid start_end_offsets, non-positive slice: start 7 end 7! [ValidationError]"
    );
}

#[test]
fn received_parts_are_checked() {
    let part = MultipartPlan::for_download(42, 20).unwrap().part(2);
    assert_eq!(count_received(1, 1, part, "here").unwrap(), 2);
    assert!(matches!(
        count_received(u64::MAX, 1, part, "here"),
        Err(S3Error::UnexpectedContentLength(context, 2, u64::MAX)) if context == "here"
    ));
    assert!(validate_received(2, part, "here").is_ok());
    assert_eq!(
        validate_received(3, part, "here").unwrap_err().message(),
        "here [UnexpectedContentLength - expected <2>, received <3>]"
    );
    assert_eq!(
        check_range(None, part, 42, "here").unwrap_err().message(),
        "here [UnexpectedContentRange - expected <bytes 40-41/42>, received <<missing>>]"
    );
}

#[test]
fn download_gives_back_what_was_uploaded() {
    let file: Vec<u8> = (0..100u8).collect();
    let upload = MultipartPlan::new(100, 7, None).unwrap();
    let mut object: Vec<u8> = Vec::new();
    for part in upload.parts() {
        object.extend_from_slice(&file[part.start as usize..part.end as usize]);
    }
    let download = MultipartPlan::for_download(100, 33).unwrap();
    let mut copy = vec![0u8; 100];
    for part in download.parts().iter().rev() {
        copy[part.start as usize..part.end as usize]
            .copy_from_slice(&object[part.start as usize..part.end as usize]);
    }
    assert_eq!(copy, file);
}

#[test]
fn each_byte_is_in_the_part_of_its_offset() {
    let plan = MultipartPlan::for_download(42, 20).unwrap();
    for offset in 0..42u64 {
        let holders: Vec<i32> = plan
            .parts()
            .iter()
            .filter(|part| part.start <= offset && offset < part.end)
            .map(|part| part.number)
            .collect();
        assert_eq!(holders, [(offset / 20) as i32 + 1]);
    }
}
