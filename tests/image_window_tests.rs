use app_loader::error::LoadError;
use app_loader::image::{parse_container, read_be_u32, AppDescriptor};
use app_loader::window::ExecutionWindow;

fn two_app_container() -> Vec<u8> {
    vec![0, 0, 0, 2, 0, 0, 0, 1, 0, 0, 0, 2, 0xAA, 0xBB, 0xCC]
}

#[test]
fn reads_big_endian_words() {
    let b = [0x01u8, 0x02, 0x03, 0x04, 0xff];
    assert_eq!(read_be_u32(&b, 0), 0x0102_0304);
    assert_eq!(read_be_u32(&b, 1), 0x0203_04ff);
}

#[test]
fn two_apps_give_two_descriptors() {
    let d = parse_container(&two_app_container()).unwrap();
    assert_eq!(
        d,
        vec![
            AppDescriptor { index: 0, size: 1, source_offset: 12 },
            AppDescriptor { index: 1, size: 2, source_offset: 13 },
        ]
    );
}

#[test]
fn descriptors_are_contiguous() {
    let b = vec![0, 0, 0, 3, 0, 0, 0, 2, 0, 0, 0, 0, 0, 0, 0, 3, 1, 2, 3, 4, 5, 6];
    let d = parse_container(&b).unwrap();
    assert_eq!(d.len(), 3);
    for i in 0..d.len() - 1 {
        assert_eq!(d[i].source_offset + d[i].size as usize, d[i + 1].source_offset);
    }
    assert_eq!(d[0].source_offset, 16);
}

#[test]
fn zero_apps_give_no_descriptors() {
    assert_eq!(parse_container(&[0, 0, 0, 0]).unwrap(), vec![]);
}

#[test]
fn truncated_containers_are_malformed() {
    assert_eq!(parse_container(&[0, 0, 0]), Err(LoadError::MalformedContainer));
    assert_eq!(parse_container(&[0, 0, 0, 2, 0, 0, 0, 1]), Err(LoadError::MalformedContainer));
    assert_eq!(
        parse_container(&[0, 0, 0, 1, 0, 0, 0, 3, 0xAA, 0xBB]),
        Err(LoadError::MalformedContainer)
    );
    assert_eq!(
        parse_container(&[0xff, 0xff, 0xff, 0xff, 0, 0, 0, 0]),
        Err(LoadError::MalformedContainer)
    );
}

#[test]
fn copy_reads_back_the_source() {
    let src: Vec<u8> = (0..40u8).collect();
    let mut w = ExecutionWindow::new(16);
    assert_eq!(w.capacity(), 16);
    assert_eq!(w.load(&src, 5, 10), Ok(()));
    assert_eq!(w.read_back(), src[5..15].to_vec());
    assert_eq!(w.load(&src, 20, 3), Ok(()));
    assert_eq!(w.read_back(), vec![20, 21, 22]);
}

#[test]
fn copy_of_window_size_is_accepted() {
    let src: Vec<u8> = (0..20u8).collect();
    let mut w = ExecutionWindow::new(8);
    assert_eq!(w.load(&src, 0, 8), Ok(()));
    assert_eq!(w.read_back(), src[0..8].to_vec());
}

#[test]
fn copy_one_past_window_size_overflows_without_writing() {
    let src: Vec<u8> = (1..21u8).collect();
    let mut w = ExecutionWindow::new(8);
    assert_eq!(w.load(&src, 0, 2), Ok(()));
    assert_eq!(w.load(&src, 4, 9), Err(LoadError::WindowOverflow));
    assert_eq!(w.read_back(), vec![1, 2]);
}

#[test]
fn copy_past_the_source_is_malformed() {
    let src = vec![1u8, 2, 3];
    let mut w = ExecutionWindow::new(8);
    assert_eq!(w.load(&src, 2, 2), Err(LoadError::MalformedContainer));
    assert_eq!(w.read_back(), Vec::<u8>::new());
}
