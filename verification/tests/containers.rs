use demuxer::video::codec::CodecDescriptor;
use demuxer::video::frames::{Frame, FrameCache};
use demuxer::video::mkv::{MkvVideoFile, Track, Video};
use demuxer::video::mp4::{Mp4Sample, Mp4Track, Mp4VideoFile, Vp09Config};
use demuxer::video::vpcc::Vpcc;
use demuxer::video::av1::Av1;
use demuxer::{load, ContainerFormat, DemuxError, VideoFile};

fn audio(number: u64) -> Track {
    Track { number, codec_id: "A_OPUS".to_string(), codec_private: Some(vec![1, 2]), video: None }
}

fn video(number: u64, codec_id: &str, codec_private: Option<Vec<u8>>) -> Track {
    Track {
        number,
        codec_id: codec_id.to_string(),
        codec_private,
        video: Some(Video { pixel_width: 1920, pixel_height: 1080 }),
    }
}

fn frame(track: u64, timestamp: u64, data: &[u8], is_keyframe: Option<bool>) -> Frame {
    Frame { track, timestamp, data: data.to_vec(), is_keyframe }
}

fn some_frames() -> Vec<Frame> {
    vec![
        frame(2, 0, &[1], Some(true)),
        frame(1, 0, &[2], Some(true)),
        frame(2, 33, &[3], None),
        frame(2, 66, &[4], Some(false)),
    ]
}

fn not_found() -> DemuxError {
    DemuxError::TrackNotFound("Could not find video track".to_string())
}

fn no_frames() -> DemuxError {
    DemuxError::NoFrames("Cannot initialize frame store cache with 0 frames".to_string())
}

#[test]
fn the_first_video_track_of_a_matroska_file() {
    let tracks = vec![audio(1), video(2, "V_VP8", None), video(3, "V_VP9", None)];
    assert_eq!(demuxer::video::mkv::find_video_track(&tracks), Ok(2));
    assert_eq!(demuxer::video::mkv::find_video_track(&vec![audio(1), audio(2)]), Err(not_found()));
    assert_eq!(demuxer::video::mkv::find_video_track(&Vec::new()), Err(not_found()));
}

#[test]
fn a_matroska_file_without_video_is_refused() {
    match MkvVideoFile::init(vec![audio(1)], some_frames()) {
        Err(err) => assert_eq!(err, not_found()),
        Ok(_) => panic!("a file without video was taken"),
    }
}

#[test]
fn the_size_of_a_matroska_video() {
    let file = MkvVideoFile::init(vec![audio(1), video(2, "V_VP8", None)], some_frames()).unwrap();
    assert_eq!(file.coded_width(), Ok(1920));
    assert_eq!(file.coded_height(), Ok(1080));
}

#[test]
fn a_size_is_cut_to_32_bits() {
    let mut track = video(1, "V_VP8", None);
    track.video = Some(Video { pixel_width: (1 << 32) + 5, pixel_height: u64::MAX });
    let file = MkvVideoFile::init(vec![track], some_frames()).unwrap();
    assert_eq!(file.coded_width(), Ok(5));
    assert_eq!(file.coded_height(), Ok(u32::MAX));
}

#[test]
fn the_first_track_of_the_number_is_looked_at() {
    let tracks = vec![audio(2), video(2, "V_VP8", None)];
    let file = MkvVideoFile::init(tracks, some_frames()).unwrap();
    assert_eq!(file.coded_width(), Err(not_found()));
    assert_eq!(file.coded_height(), Err(not_found()));
    assert_eq!(file.codec(), Ok(None));
}

#[test]
fn the_codec_of_a_matroska_video() {
    let codec = |track: Track| MkvVideoFile::init(vec![track], Vec::new()).unwrap().codec();
    assert_eq!(codec(video(1, "V_VP8", None)), Ok(Some("vp8".to_string())));
    assert_eq!(codec(video(1, "V_VP8", Some(vec![1, 2, 3]))), Ok(Some("vp8".to_string())));
    assert_eq!(codec(video(1, "V_VP9", None)), Ok(Some("vp09.00.61.12".to_string())));
    assert_eq!(
        codec(video(1, "V_VP9", Some(vec![1, 1, 1, 2, 1, 31, 3, 1, 8, 4, 1, 3]))),
        Ok(Some("vp09.01.31.08".to_string()))
    );
    assert_eq!(
        codec(video(1, "V_AV1", Some(vec![0x81, 0x08, 0x00, 0x00]))),
        Ok(Some("av01.0.08H.08".to_string()))
    );
    assert_eq!(codec(video(1, "V_AV1", None)), Ok(None));
    assert_eq!(codec(video(1, "V_MPEG4/ISO/AVC", Some(vec![1]))), Ok(None));
    assert_eq!(codec(video(1, "", None)), Ok(None));
    assert_eq!(codec(video(1, "v_vp8", None)), Ok(None));
}

#[test]
fn a_bad_configuration_is_reported() {
    let codec = |track: Track| MkvVideoFile::init(vec![track], Vec::new()).unwrap().codec();
    assert_eq!(
        codec(video(1, "V_AV1", Some(vec![0x81, 0x08]))),
        Err(DemuxError::InvalidData("Could not read seq_tier_0".to_string()))
    );
    assert_eq!(
        codec(video(1, "V_AV1", Some(vec![]))),
        Err(DemuxError::InvalidData("Could not read marker".to_string()))
    );
    assert_eq!(
        codec(video(1, "V_VP9", Some(vec![1, 0, 1]))),
        Err(DemuxError::InvalidData("Invalid length for feature Profile".to_string()))
    );
    assert_eq!(
        codec(video(1, "V_VP9", Some(vec![]))),
        Err(DemuxError::InvalidData("Missing feature Profile".to_string()))
    );
    assert_eq!(
        codec(video(1, "V_VP9", Some(vec![6, 1, 1]))),
        Err(DemuxError::InvalidData("Unknown vpcc feature 6".to_string()))
    );
}

#[test]
fn the_descriptor_of_a_track() {
    assert_eq!(video(1, "V_VP8", None).descriptor(), Ok(Some(CodecDescriptor::Vp8)));
    assert_eq!(
        video(1, "V_VP9", None).descriptor(),
        Ok(Some(CodecDescriptor::Vp9(Vpcc {
            profile: 0,
            level: 61,
            bit_depth: 12,
            chroma_subsampling: 0
        })))
    );
    assert_eq!(
        video(1, "V_AV1", Some(vec![0, 0b001_00101, 0b0100_0000])).descriptor(),
        Ok(Some(CodecDescriptor::Av1(Av1 {
            seq_profile: 1,
            seq_level_idx_0: 5,
            seq_tier_0: false,
            high_bitdepth: true,
            twelve_bit: false,
        })))
    );
    assert_eq!(audio(1).descriptor(), Ok(None));
    assert_eq!(CodecDescriptor::fallback_vp9().to_codec_string(), "vp09.00.61.12");
    assert_eq!(CodecDescriptor::Vp8.to_codec_string(), "vp8");
    let file = MkvVideoFile::init(vec![video(1, "V_VP8", None)], Vec::new()).unwrap();
    assert_eq!(file.descriptor(), Ok(Some(CodecDescriptor::Vp8)));
}

#[test]
fn the_frames_of_a_matroska_video() {
    let file = MkvVideoFile::init(vec![audio(1), video(2, "V_VP8", None)], some_frames()).unwrap();
    let store = file.keyframes().unwrap();
    assert_eq!(store.count(), 3);
    assert_eq!(
        store.get(0),
        Some(&FrameCache { keyframe: true, timestamp: 0, payload: vec![1] })
    );
    assert_eq!(
        store.get(1),
        Some(&FrameCache { keyframe: false, timestamp: 33, payload: vec![3] })
    );
    assert_eq!(
        store.get(2),
        Some(&FrameCache { keyframe: false, timestamp: 66, payload: vec![4] })
    );
}

#[test]
fn a_matroska_video_without_frames() {
    let file = MkvVideoFile::init(vec![video(7, "V_VP8", None)], some_frames()).unwrap();
    match file.keyframes() {
        Err(err) => assert_eq!(err, no_frames()),
        Ok(_) => panic!("a store without frames was built"),
    }
}

fn mp4_track(id: u32, is_video: bool, vp09: Option<Vp09Config>) -> Mp4Track {
    Mp4Track { id, is_video, width: 1280, height: 720, vp09 }
}

fn samples() -> Vec<Option<Mp4Sample>> {
    vec![
        Some(Mp4Sample { start_time: 0, bytes: vec![1, 1], is_sync: true }),
        None,
        Some(Mp4Sample { start_time: 512, bytes: vec![2], is_sync: false }),
        Some(Mp4Sample { start_time: 1024, bytes: vec![], is_sync: true }),
    ]
}

#[test]
fn the_first_video_track_of_an_mp4_file() {
    let tracks = vec![mp4_track(3, false, None), mp4_track(1, true, None), mp4_track(2, true, None)];
    assert_eq!(demuxer::video::mp4::find_video_track(&tracks), Ok(1));
    assert_eq!(
        demuxer::video::mp4::find_video_track(&vec![mp4_track(3, false, None)]),
        Err(not_found())
    );
    match Mp4VideoFile::init(vec![mp4_track(3, false, None)], samples()) {
        Err(err) => assert_eq!(err, not_found()),
        Ok(_) => panic!("a file without video was taken"),
    }
}

#[test]
fn the_size_of_an_mp4_video() {
    let mut small = mp4_track(2, false, None);
    small.width = 1;
    small.height = 2;
    let file = Mp4VideoFile::init(vec![small, mp4_track(1, true, None)], samples()).unwrap();
    assert_eq!(file.coded_width(), Ok(1280));
    assert_eq!(file.coded_height(), Ok(720));
    let mut large = mp4_track(1, true, None);
    large.width = u16::MAX;
    large.height = u16::MAX;
    let file = Mp4VideoFile::init(vec![large], samples()).unwrap();
    assert_eq!(file.coded_width(), Ok(65535));
    assert_eq!(file.coded_height(), Ok(65535));
}

#[test]
fn the_codec_of_an_mp4_video() {
    let fields = Vp09Config { profile: 2, level: 41, bit_depth: 10, chroma_subsampling: 1 };
    let other = Vp09Config { profile: 0, level: 10, bit_depth: 8, chroma_subsampling: 0 };
    let file = Mp4VideoFile::init(
        vec![mp4_track(1, true, None), mp4_track(2, true, Some(fields)), mp4_track(3, true, Some(other))],
        samples(),
    )
    .unwrap();
    assert_eq!(
        file.vpcc(),
        Some(Vpcc { profile: 2, level: 41, bit_depth: 10, chroma_subsampling: 1 })
    );
    assert_eq!(file.codec(), Ok(Some("vp09.02.41.10".to_string())));
    assert_eq!(
        file.descriptor(),
        Ok(Some(CodecDescriptor::Vp9(Vpcc {
            profile: 2,
            level: 41,
            bit_depth: 10,
            chroma_subsampling: 1
        })))
    );
    let plain = Mp4VideoFile::init(vec![mp4_track(1, true, None)], samples()).unwrap();
    assert_eq!(plain.vpcc(), None);
    assert_eq!(plain.codec(), Ok(None));
    assert_eq!(plain.descriptor(), Ok(None));
}

#[test]
fn both_forms_of_a_vp9_configuration_give_the_same_record() {
    let fields = Vp09Config { profile: 1, level: 31, bit_depth: 8, chroma_subsampling: 3 };
    let file = Mp4VideoFile::init(vec![mp4_track(1, true, Some(fields))], samples()).unwrap();
    let bytes: &[u8] = &[1, 1, 1, 2, 1, 31, 3, 1, 8, 4, 1, 3];
    assert_eq!(file.vpcc(), Some(Vpcc::from(bytes).unwrap()));
}

#[test]
fn the_frames_of_an_mp4_video() {
    let file = Mp4VideoFile::init(vec![mp4_track(1, true, None)], samples()).unwrap();
    let store = file.keyframes().unwrap();
    assert_eq!(store.count(), 3);
    assert_eq!(
        store.get(0),
        Some(&FrameCache { keyframe: true, timestamp: 0, payload: vec![1, 1] })
    );
    assert_eq!(
        store.get(1),
        Some(&FrameCache { keyframe: false, timestamp: 512, payload: vec![2] })
    );
    assert_eq!(
        store.get(2),
        Some(&FrameCache { keyframe: true, timestamp: 1024, payload: vec![] })
    );
    let empty = Mp4VideoFile::init(vec![mp4_track(1, true, None)], vec![None, None]).unwrap();
    match empty.keyframes() {
        Err(err) => assert_eq!(err, no_frames()),
        Ok(_) => panic!("a store without frames was built"),
    }
}

#[test]
fn loading_a_matroska_file() {
    let file = MkvVideoFile::init(vec![audio(1), video(2, "V_VP9", None)], some_frames()).unwrap();
    let mut demuxer = load(VideoFile::Mkv(file)).unwrap();
    assert_eq!(demuxer.coded_width(), 1920);
    assert_eq!(demuxer.coded_height(), 1080);
    assert_eq!(demuxer.codec(), Some("vp09.00.61.12".to_string()));
    assert_eq!(demuxer.frame_count(), 3);
    assert_eq!(demuxer.timestamp_to_frame(66), Some(2));
    let mut submitted = Vec::new();
    assert_eq!(demuxer.seek(2, &mut submitted), 66);
    assert_eq!(submitted, vec![0, 1, 2]);
}

#[test]
fn loading_an_mp4_file() {
    let file = Mp4VideoFile::init(vec![mp4_track(1, true, None)], samples()).unwrap();
    let mut demuxer = load(VideoFile::Mp4(file)).unwrap();
    assert_eq!(demuxer.coded_width(), 1280);
    assert_eq!(demuxer.coded_height(), 720);
    assert_eq!(demuxer.codec(), None);
    assert_eq!(demuxer.frame_count(), 3);
    let mut submitted = Vec::new();
    assert_eq!(demuxer.decode(0, 5, &mut submitted), 3);
    assert_eq!(submitted, vec![0, 1, 2]);
}

#[test]
fn what_load_reports() {
    let failure = |file: VideoFile| match load(file) {
        Err(err) => err,
        Ok(_) => panic!("a file that cannot be set up was loaded"),
    };
    let bad_codec =
        MkvVideoFile::init(vec![video(9, "V_VP9", Some(vec![1, 1]))], some_frames()).unwrap();
    assert_eq!(
        failure(VideoFile::Mkv(bad_codec)),
        DemuxError::InvalidData("Missing feature Profile".to_string())
    );
    let hidden = MkvVideoFile::init(vec![audio(2), video(2, "V_VP8", None)], some_frames()).unwrap();
    assert_eq!(failure(VideoFile::Mkv(hidden)), not_found());
    let empty = MkvVideoFile::init(vec![video(9, "V_VP8", None)], some_frames()).unwrap();
    assert_eq!(failure(VideoFile::Mkv(empty)), no_frames());
    let empty = Mp4VideoFile::init(vec![mp4_track(1, true, None)], Vec::new()).unwrap();
    assert_eq!(failure(VideoFile::Mp4(empty)), no_frames());
}

#[test]
fn a_video_file_answers_for_its_format() {
    let mkv = VideoFile::Mkv(
        MkvVideoFile::init(vec![video(2, "V_VP8", None)], some_frames()).unwrap(),
    );
    assert_eq!(mkv.format(), ContainerFormat::Mkv);
    assert_eq!(mkv.codec(), Ok(Some("vp8".to_string())));
    assert_eq!(mkv.coded_width(), Ok(1920));
    assert_eq!(mkv.coded_height(), Ok(1080));
    assert_eq!(mkv.keyframes().unwrap().count(), 3);
    let mp4 = VideoFile::Mp4(Mp4VideoFile::init(vec![mp4_track(1, true, None)], samples()).unwrap());
    assert_eq!(mp4.format(), ContainerFormat::Mp4);
    assert_eq!(mp4.codec(), Ok(None));
    assert_eq!(mp4.coded_width(), Ok(1280));
    assert_eq!(mp4.coded_height(), Ok(720));
    assert_eq!(mp4.keyframes().unwrap().count(), 3);
}
