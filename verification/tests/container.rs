use scribble::{
    can_be_probed, probe_source_and_pick_default_track, validate_media_prefix, Error, Status, Track,
};

fn s16le() -> String {
    symphonia::core::codecs::CODEC_TYPE_PCM_S16LE.to_string()
}

fn s16be() -> String {
    symphonia::core::codecs::CODEC_TYPE_PCM_S16BE.to_string()
}

fn alaw() -> String {
    symphonia::core::codecs::CODEC_TYPE_PCM_ALAW.to_string()
}

fn ms_adpcm() -> String {
    symphonia::core::codecs::CODEC_TYPE_ADPCM_MS.to_string()
}

fn flac() -> String {
    symphonia::core::codecs::CODEC_TYPE_FLAC.to_string()
}

fn mp3() -> String {
    symphonia::core::codecs::CODEC_TYPE_MP3.to_string()
}

fn opus() -> String {
    symphonia::core::codecs::CODEC_TYPE_OPUS.to_string()
}

fn vorbis() -> String {
    symphonia::core::codecs::CODEC_TYPE_VORBIS.to_string()
}

fn concat(parts: &[&[u8]]) -> Vec<u8> {
    parts.concat()
}

fn recognised(bytes: &[u8], id: u32, codec: String, sample_rate: u32) {
    assert!(can_be_probed(bytes));
    assert_eq!(
        probe_source_and_pick_default_track(bytes, None),
        Ok(Track { id, codec, sample_rate: Some(sample_rate) })
    );
    assert_eq!(validate_media_prefix(bytes), Ok(()));
}

fn refused(bytes: &[u8]) {
    assert!(!can_be_probed(bytes));
    assert_eq!(probe_source_and_pick_default_track(bytes, None), Err(Error::ProbeFailed));
    let err = validate_media_prefix(bytes).unwrap_err();
    assert_eq!(err.status, Status::UnsupportedMediaType);
    assert_eq!(
        err.message,
        "unsupported or unrecognized media container: failed to probe media stream"
    );
}

// WAVE and AIFF

fn wave_format(tag: u16, channels: u16, rate: u32, block: u16, bits: u16, more: &[u8]) -> Vec<u8> {
    concat(&[
        &tag.to_le_bytes(),
        &channels.to_le_bytes(),
        &rate.to_le_bytes(),
        &(rate.wrapping_mul(u32::from(block))).to_le_bytes(),
        &block.to_le_bytes(),
        &bits.to_le_bytes(),
        more,
    ])
}

fn wave(format: &[u8]) -> Vec<u8> {
    let chunks = concat(&[
        b"WAVEfmt ",
        &(format.len() as u32).to_le_bytes(),
        format,
        b"data",
        &8u32.to_le_bytes(),
        &[1; 8],
    ]);
    concat(&[b"RIFF", &(chunks.len() as u32).to_le_bytes(), &chunks])
}

#[test]
fn wave_file_needs_a_sample_rate() {
    recognised(&wave(&wave_format(1, 1, 16_000, 2, 16, &[])), 0, s16le(), 16_000);
    refused(&wave(&wave_format(1, 1, 0, 2, 16, &[])));
}

#[test]
fn blocks_of_compressed_wave_audio_hold_their_headers() {
    let coefficients = concat(&[&[32, 0], &[0; 32]]);
    let adpcm = |block: u16| wave(&wave_format(2, 1, 16_000, block, 4, &coefficients));
    recognised(&adpcm(256), 0, ms_adpcm(), 16_000);
    refused(&adpcm(6));
    refused(&adpcm(0));
    // Without its coefficients the format cannot be decoded.
    refused(&wave(&wave_format(2, 1, 16_000, 256, 4, &[2, 0, 0, 0])));
    let ima = |block: u16| wave(&wave_format(0x11, 1, 16_000, block, 4, &[2, 0, 0, 0]));
    assert!(can_be_probed(&ima(256)));
    refused(&ima(3));
}

#[test]
fn extension_of_companded_wave_audio_is_passed_over() {
    recognised(&wave(&wave_format(6, 1, 8_000, 1, 8, &[0, 0])), 0, alaw(), 8_000);
    // The length of the chunk does not count the extension.
    let chunks = |extension: &[u8]| {
        concat(&[
            b"WAVEfmt ",
            &18u32.to_le_bytes(),
            &wave_format(6, 1, 8_000, 1, 8, &[4, 0]),
            extension,
            b"data",
            &8u32.to_le_bytes(),
            &[1; 8],
        ])
    };
    recognised(&concat(&[b"RIFF", &100u32.to_le_bytes(), &chunks(&[9; 4])]), 0, alaw(), 8_000);
    refused(&concat(&[b"RIFF", &100u32.to_le_bytes(), &chunks(&[])]));
    refused(&wave(&wave_format(6, 1, 8_000, 1, 8, &[])));
}

#[test]
fn list_of_odd_length_has_two_bytes_behind_it() {
    let bytes = |padding: &[u8]| {
        let chunks = concat(&[
            b"WAVELIST",
            &7u32.to_le_bytes(),
            b"adtlabc",
            padding,
            b"fmt ",
            &16u32.to_le_bytes(),
            &wave_format(1, 1, 16_000, 2, 16, &[]),
            b"data",
            &8u32.to_le_bytes(),
            &[1; 8],
        ]);
        concat(&[b"RIFF", &(chunks.len() as u32).to_le_bytes(), &chunks])
    };
    recognised(&bytes(&[0, 0]), 0, s16le(), 16_000);
    refused(&bytes(&[0]));
}

#[test]
fn extensible_wave_audio_needs_bits() {
    let extensible = |bits: u16| {
        let mut more = vec![22, 0];
        more.extend_from_slice(&bits.to_le_bytes());
        more.extend_from_slice(&1u32.to_le_bytes());
        more.extend_from_slice(&[1, 0, 0, 0, 0, 0, 0x10, 0, 0x80, 0, 0, 0xAA, 0, 0x38, 0x9B, 0x71]);
        wave(&wave_format(0xFFFE, 1, 16_000, 2, bits, &more))
    };
    recognised(&extensible(16), 0, s16le(), 16_000);
    refused(&extensible(0));
}

#[test]
fn speakers_of_extensible_wave_audio_have_a_place() {
    let extensible = |channels: u16, mask: u32| {
        let mut more = vec![22, 0, 16, 0];
        more.extend_from_slice(&mask.to_le_bytes());
        more.extend_from_slice(&[1, 0, 0, 0, 0, 0, 0x10, 0, 0x80, 0, 0, 0xAA, 0, 0x38, 0x9B, 0x71]);
        wave(&wave_format(0xFFFE, channels, 16_000, 2, 16, &more))
    };
    recognised(&extensible(2, 0), 0, s16le(), 16_000);
    recognised(&extensible(8, 0xFFFF_FFFF), 0, s16le(), 16_000);
    refused(&extensible(2, 0x8000_0000));
    refused(&extensible(40, 1));
}

fn aiff(rate: &[u8]) -> Vec<u8> {
    let chunks = concat(&[
        b"AIFFCOMM",
        &18u32.to_be_bytes(),
        &1u16.to_be_bytes(),
        &4u32.to_be_bytes(),
        &16u16.to_be_bytes(),
        rate,
        b"SSND",
        &16u32.to_be_bytes(),
        &[0; 16],
    ]);
    concat(&[b"FORM", &(chunks.len() as u32).to_be_bytes(), &chunks])
}

#[test]
fn aiff_file_needs_a_sample_rate() {
    let bytes = aiff(&[0x40, 0x0C, 0xFA, 0, 0, 0, 0, 0, 0, 0]);
    recognised(&bytes, 0, s16be(), 16_000);
    refused(&aiff(&[0; 10]));
    // A rate below one and a negative one count as zero.
    refused(&aiff(&[0x3F, 0x00, 0xFA, 0, 0, 0, 0, 0, 0, 0]));
    refused(&aiff(&[0xC0, 0x0C, 0xFA, 0, 0, 0, 0, 0, 0, 0]));
}

#[test]
fn rate_of_an_aiff_file_can_be_written_in_several_ways() {
    recognised(&aiff(&[0x40, 0x0D, 0x7D, 0, 0, 0, 0, 0, 0, 0]), 0, s16be(), 16_000);
    recognised(&aiff(&[0x40, 0x3E, 0, 0, 0, 0, 0, 0, 0x3E, 0x80]), 0, s16be(), 16_000);
    recognised(&aiff(&[0x3F, 0xFF, 0x80, 0, 0, 0, 0, 0, 0, 0]), 0, s16be(), 1);
    refused(&aiff(&[0x3F, 0xFF, 0x7F, 0, 0, 0, 0, 0, 0, 0]));
    // One without bounds counts as the largest, and one that is no number as zero.
    recognised(&aiff(&[0x7F, 0xFF, 0, 0, 0, 0, 0, 0, 0, 0]), 0, s16be(), u32::MAX);
    refused(&aiff(&[0x7F, 0xFF, 0x80, 0, 0, 0, 0, 0, 0, 0]));
}

#[test]
fn core_audio_needs_a_source_of_known_length() {
    let desc = concat(&[
        &16_000.0f64.to_be_bytes(),
        b"lpcm",
        &2u32.to_be_bytes(),
        &2u32.to_be_bytes(),
        &1u32.to_be_bytes(),
        &1u32.to_be_bytes(),
        &16u32.to_be_bytes(),
    ]);
    refused(&concat(&[
        b"caff",
        &[0, 1, 0, 0],
        b"desc",
        &32u64.to_be_bytes(),
        &desc,
        b"data",
        &12u64.to_be_bytes(),
        &[0; 12],
    ]));
}

// ISO media

fn atom(kind: &[u8; 4], parts: &[&[u8]]) -> Vec<u8> {
    let body = parts.concat();
    concat(&[&(8 + body.len() as u32).to_be_bytes(), kind, &body])
}

fn sample_entry(kind: &[u8; 4], version: u16, more: &[u8]) -> Vec<u8> {
    atom(
        kind,
        &[
            &[0; 6],
            &1u16.to_be_bytes(),
            &version.to_be_bytes(),
            &[0; 6],
            &1u16.to_be_bytes(),
            &16u16.to_be_bytes(),
            &[0; 4],
            &(16_000u32 << 16).to_be_bytes(),
            more,
        ],
    )
}

struct Movie {
    timescale: u32,
    handler_len: usize,
    entry: Vec<u8>,
}

impl Movie {
    fn new(entry: Vec<u8>) -> Movie {
        Movie { timescale: 16_000, handler_len: 29, entry }
    }

    fn bytes(&self) -> Vec<u8> {
        let zeros = [0u8; 96];
        let mvhd = atom(
            b"mvhd",
            &[&zeros[..12], &1_000u32.to_be_bytes(), &zeros[..80], &2u32.to_be_bytes()],
        );
        let tkhd = atom(b"tkhd", &[&zeros[..12], &1u32.to_be_bytes(), &zeros[..68]]);
        let mdhd =
            atom(b"mdhd", &[&zeros[..12], &self.timescale.to_be_bytes(), &zeros[..8]]);
        let handler = concat(&[&zeros[..8], b"soun", &zeros[..12], b"sound"]);
        let handler = &handler[..self.handler_len];
        let hdlr = atom(b"hdlr", &[handler]);
        let stbl = atom(
            b"stbl",
            &[
                &atom(b"stsd", &[&zeros[..4], &1u32.to_be_bytes(), &self.entry]),
                &atom(b"stts", &[&zeros[..8]]),
                &atom(b"stsc", &[&zeros[..8]]),
                &atom(b"stsz", &[&zeros[..12]]),
                &atom(b"stco", &[&zeros[..8]]),
            ],
        );
        let minf = atom(b"minf", &[&atom(b"smhd", &[&zeros[..8]]), &stbl]);
        let mdia = atom(b"mdia", &[&mdhd, &hdlr, &minf]);
        let moov = atom(b"moov", &[&mvhd, &atom(b"trak", &[&tkhd, &mdia])]);
        let ftyp = atom(b"ftyp", &[b"isom", &zeros[..4], b"isom"]);
        concat(&[&ftyp, &moov, &atom(b"mdat", &[&zeros[..16]])])
    }
}

#[test]
fn iso_media_needs_a_time_scale() {
    let mut movie = Movie::new(sample_entry(b"sowt", 0, &[]));
    recognised(&movie.bytes(), 0, s16le(), 16_000);
    movie.timescale = 0;
    refused(&movie.bytes());
}

#[test]
fn iso_media_needs_a_whole_handler() {
    let mut movie = Movie::new(sample_entry(b"sowt", 0, &[]));
    movie.handler_len = 24;
    recognised(&movie.bytes(), 0, s16le(), 16_000);
    movie.handler_len = 20;
    refused(&movie.bytes());
}

#[test]
fn iso_media_needs_an_elementary_stream() {
    let esds = |descriptors: &[u8]| {
        let esds = atom(b"esds", &[&[0; 4], descriptors]);
        Movie::new(sample_entry(b"mp4a", 0, &esds)).bytes()
    };
    let config = concat(&[&[4, 13, 0x6B], &[0; 12], &[6, 1, 2]]);
    let stream = concat(&[&[3, 3 + config.len() as u8, 0, 1, 0], &config]);
    recognised(&esds(&stream), 0, mp3(), 16_000);
    refused(&esds(&[]));
    // A decoder configuration is at least 13 bytes long.
    refused(&esds(&[3, 9, 0, 1, 0, 4, 4, 0x6B, 0, 0, 0]));
}

#[test]
fn linear_samples_of_iso_media_need_the_second_version() {
    refused(&Movie::new(sample_entry(b"lpcm", 0, &[])).bytes());
}

#[test]
fn atoms_lie_within_each_other() {
    let movie = Movie::new(sample_entry(b"sowt", 0, &[])).bytes();
    let trak = movie.windows(4).position(|kind| kind == b"trak").unwrap();
    let mut longer = movie.clone();
    longer[trak - 2] = 0xFF;
    refused(&longer);
}

// Matroska

fn element(id: &[u8], parts: &[&[u8]]) -> Vec<u8> {
    let body = parts.concat();
    concat(&[id, &(0x1000_0000 + body.len() as u32).to_be_bytes(), &body])
}

/// What a track holds.
fn track(codec: &[u8], private: &[u8], audio_extra: &[u8]) -> Vec<u8> {
    let audio = element(
        &[0xE1],
        &[
            &element(&[0xB5], &[&48_000.0f64.to_be_bytes()]),
            &element(&[0x9F], &[&[1]]),
            audio_extra,
        ],
    );
    let mut track = concat(&[
        &element(&[0xD7], &[&[7]]),
        &element(&[0x73, 0xC5], &[&[1]]),
        &element(&[0x86], &[codec]),
        &audio,
    ]);
    if !private.is_empty() {
        track.extend_from_slice(&element(&[0x63, 0xA2], &[private]));
    }
    track
}

fn info(parts: &[&[u8]]) -> Vec<u8> {
    element(&[0x15, 0x49, 0xA9, 0x66], parts)
}

fn tracks(parts: &[&[u8]]) -> Vec<u8> {
    element(&[0x16, 0x54, 0xAE, 0x6B], parts)
}

fn scale(scale: &[u8]) -> Vec<u8> {
    element(&[0x2A, 0xD7, 0xB1], &[scale])
}

/// A file whose segment holds those parts before the audio.
fn segment(parts: &[&[u8]]) -> Vec<u8> {
    let cluster = element(&[0x1F, 0x43, 0xB6, 0x75], &[&element(&[0xE7], &[&[0]])]);
    let header = element(&[0x1A, 0x45, 0xDF, 0xA3], &[&element(&[0x42, 0x82], &[b"webm"])]);
    concat(&[&header, &element(&[0x18, 0x53, 0x80, 0x67], &[&parts.concat(), &cluster])])
}

fn matroska(time_scale: &[u8], codec: &[u8], private: &[u8]) -> Vec<u8> {
    let entry = element(&[0xAE], &[&track(codec, private, &[])]);
    segment(&[&info(&[&scale(time_scale)]), &tracks(&[&entry])])
}

#[test]
fn time_scale_of_matroska_has_32_bits() {
    recognised(&matroska(&[0x0F, 0x42, 0x40], b"A_OPUS", &[]), 7, opus(), 48_000);
    recognised(&matroska(&[0, 0xFF, 0xFF, 0xFF, 0xFF], b"A_OPUS", &[]), 7, opus(), 48_000);
    refused(&matroska(&[0], b"A_OPUS", &[]));
    refused(&matroska(&[], b"A_OPUS", &[]));
    refused(&matroska(&[1, 0, 0, 0, 0], b"A_OPUS", &[]));
}

#[test]
fn flac_header_in_matroska_comes_to_an_end() {
    let stream_info = concat(&[b"fLaC", &[0x80, 0, 0, 34], &[0; 34]]);
    recognised(&matroska(&[1], b"A_FLAC", &stream_info), 7, flac(), 48_000);
    refused(&matroska(&[1], b"A_FLAC", &concat(&[b"fLaC", &[1, 0, 0, 0]])));
}

#[test]
fn elements_lie_within_each_other() {
    let mut bytes = matroska(&[1], b"A_OPUS", &[]);
    let entry = bytes.windows(2).position(|id| id == [0x73, 0xC5]).unwrap();
    bytes[entry + 4] = 0xFF;
    refused(&bytes);
}

#[test]
fn element_that_is_passed_over_can_reach_beyond_its_end() {
    let opus_track = track(b"A_OPUS", &[], &[]);
    let entry = element(&[0xAE], &[&opus_track]);
    // Three bytes of padding, of which only the header lies within what it belongs to.
    let padding = [0xEC, 0x83];
    let rest = [1, 2, 3];
    let bytes = segment(&[&info(&[&scale(&[1]), &padding]), &rest, &tracks(&[&entry])]);
    recognised(&bytes, 7, opus(), 48_000);
    // The next part is then looked for behind it.
    let bytes = segment(&[&info(&[&scale(&[1]), &padding]), &tracks(&[&entry])]);
    refused(&bytes);
    // The audio of a track is such an element too, but the track itself is part of a list.
    let audio_over = track(b"A_OPUS", &[], &padding);
    let entry = element(&[0xAE], &[&audio_over, &rest]);
    recognised(&segment(&[&info(&[&scale(&[1])]), &tracks(&[&entry])]), 7, opus(), 48_000);
    let entry = element(&[0xAE], &[&audio_over]);
    refused(&segment(&[&info(&[&scale(&[1])]), &tracks(&[&entry, &rest])]));
    let entry = element(&[0xAE], &[&opus_track, &padding]);
    refused(&segment(&[&info(&[&scale(&[1])]), &tracks(&[&entry, &rest])]));
    // One that is read must lie within it.
    let title = [0x7B, 0xA9, 0x83];
    refused(&segment(&[&info(&[&scale(&[1]), &title]), &rest, &tracks(&[&opus_track])]));
}

// Ogg

fn ogg_page(flags: u8, granule: u64, sequence: u32, packets: &[&[u8]]) -> Vec<u8> {
    let mut segments = Vec::new();
    for packet in packets {
        segments.extend(std::iter::repeat(255u8).take(packet.len() / 255));
        segments.push((packet.len() % 255) as u8);
    }
    let mut page = concat(&[
        b"OggS",
        &[0, flags],
        &granule.to_le_bytes(),
        &9u32.to_le_bytes(),
        &sequence.to_le_bytes(),
        &[0; 4],
        &[segments.len() as u8],
        &segments,
        &packets.concat(),
    ]);
    let mut crc = 0u32;
    for byte in &page {
        crc ^= u32::from(*byte) << 24;
        for _ in 0..8 {
            crc = (crc << 1) ^ (if crc >> 31 == 1 { 0x04C1_1DB7 } else { 0 });
        }
    }
    page[22..26].copy_from_slice(&crc.to_le_bytes());
    page
}

#[test]
fn opus_in_ogg_is_recognised() {
    let head = concat(&[b"OpusHead", &[1, 1, 0, 0], &48_000u32.to_le_bytes(), &[0, 0, 0]]);
    let tags = concat(&[b"OpusTags", &[0; 8]]);
    let bytes = concat(&[
        &ogg_page(2, 0, 0, &[&head]),
        &ogg_page(0, 0, 1, &[&tags]),
        &ogg_page(4, 960, 2, &[&[0x08, 1, 2, 3]]),
    ]);
    recognised(&bytes, 9, opus(), 48_000);
}

struct Bits {
    bytes: Vec<u8>,
    len: usize,
}

impl Bits {
    fn push(&mut self, value: u64, n: usize) {
        for k in 0..n {
            if self.len % 8 == 0 {
                self.bytes.push(0);
            }
            let bit = ((value >> k) & 1) as u8;
            *self.bytes.last_mut().unwrap() |= bit << (self.len % 8);
            self.len += 1;
        }
    }
}

/// A codebook of `entries` vectors of `dimensions` numbers, whose lookup table of that kind has
/// `values` values.
struct Codebook {
    dimensions: u64,
    entries: u64,
    lookup: u64,
    values: usize,
}

fn codebook(dimensions: u64, entries: u64, lookup: u64, values: usize) -> Codebook {
    Codebook { dimensions, entries, lookup, values }
}

fn push_codebook(setup: &mut Bits, codebook: &Codebook) {
    setup.push(0x56_4342, 24);
    setup.push(codebook.dimensions, 16);
    setup.push(codebook.entries, 24);
    if codebook.entries > 10_000 {
        // All codes are of one length, and counted.
        setup.push(1, 1);
        setup.push(16, 5);
        setup.push(codebook.entries, 64 - codebook.entries.leading_zeros() as usize);
    } else {
        setup.push(0, 2);
        for _ in 0..codebook.entries {
            setup.push(6, 5);
        }
    }
    setup.push(codebook.lookup, 4);
    if codebook.lookup > 0 {
        setup.push(0, 64);
        setup.push(3, 4);
        setup.push(0, 1);
        setup.push(0, 4 * codebook.values);
    }
}

fn vorbis_ident() -> Vec<u8> {
    concat(&[
        b"\x01vorbis",
        &[0, 0, 0, 0, 1],
        &44_100u32.to_le_bytes(),
        &[0; 12],
        &[0xB8, 1],
    ])
}

fn vorbis_stream(codebooks: &[Codebook]) -> Vec<u8> {
    let mut setup = Bits { bytes: b"\x05vorbis".to_vec(), len: 56 };
    setup.push(codebooks.len() as u64 - 1, 8);
    for codebook in codebooks {
        push_codebook(&mut setup, codebook);
    }
    // One time transform, an empty floor of type 1, a residue, a mapping and a mode.
    setup.push(0, 6 + 16);
    setup.push(0, 6);
    setup.push(1, 16);
    setup.push(0, 5 + 2 + 4);
    setup.push(0, 6 + 16);
    setup.push(0, 64);
    setup.push(0, 8 + 6 + 8 + 4);
    setup.push(0, 6 + 16);
    setup.push(0, 1 + 1 + 2 + 24);
    setup.push(0, 6);
    setup.push(0, 1 + 16 + 16 + 8);
    setup.push(1, 1);
    let comment = concat(&[b"\x03vorbis", &[0; 8], &[1]]);
    concat(&[
        &ogg_page(2, 0, 0, &[&vorbis_ident()]),
        &ogg_page(0, 0, 1, &[&comment, &setup.bytes]),
        &ogg_page(4, 128, 2, &[&[0, 0, 0, 0]]),
    ])
}

#[test]
fn vorbis_codebooks_can_be_passed_over() {
    recognised(&vorbis_stream(&[codebook(1, 8, 0, 0)]), 9, vorbis(), 44_100);
    recognised(&vorbis_stream(&[codebook(4, 81, 1, 3)]), 9, vorbis(), 44_100);
    recognised(&vorbis_stream(&[codebook(8, 6561, 1, 3)]), 9, vorbis(), 44_100);
    recognised(&vorbis_stream(&[codebook(2, 80, 1, 8)]), 9, vorbis(), 44_100);
    recognised(&vorbis_stream(&[codebook(3, 5, 2, 15)]), 9, vorbis(), 44_100);
}

#[test]
fn vorbis_codebooks_have_dimensions() {
    refused(&vorbis_stream(&[codebook(0, 8, 1, 1)]));
    // The root of one entry is one, and two to the power of 32 does not fit.
    refused(&vorbis_stream(&[codebook(32, 1, 1, 1)]));
    refused(&vorbis_stream(&[codebook(0xFFFF, 0x1_0002, 2, 0)]));
}

#[test]
fn every_vorbis_codebook_is_looked_at() {
    let first = || codebook(2, 80, 1, 8);
    let ordinary = [first(), codebook(4, 81, 1, 3), codebook(3, 5, 2, 15), codebook(1, 8, 0, 0)];
    recognised(&vorbis_stream(&ordinary), 9, vorbis(), 44_100);
    refused(&vorbis_stream(&[first(), codebook(0, 8, 1, 1)]));
    refused(&vorbis_stream(&[codebook(3, 5, 2, 15), first(), codebook(0, 8, 1, 1)]));
}

#[test]
fn vorbis_table_is_looked_at_as_soon_as_its_head_is_there() {
    let setup = concat(&[
        b"\x05vorbis\x00\x42\x43\x56",
        &[0, 0, 2, 0, 0, 0, 0x10],
        &[0; 9],
    ]);
    let bytes = concat(&[
        &ogg_page(2, 0, 0, &[&vorbis_ident()]),
        &ogg_page(0, 0, 1, &[&setup]),
    ]);
    assert_eq!(bytes.len(), 113);
    refused(&bytes);
}

#[test]
fn vorbis_codebook_of_one_dimension_can_be_large() {
    recognised(&vorbis_stream(&[codebook(1, 70_000, 1, 70_000)]), 9, vorbis(), 44_100);
}

// Tags and frames

fn id3(version: u8, flags: u8, body: &[u8]) -> Vec<u8> {
    let len = body.len();
    concat(&[
        b"ID3",
        &[version, 0, flags],
        &[0, 0, (len / 128) as u8, (len % 128) as u8],
        body,
    ])
}

#[test]
fn tag_is_passed_over() {
    let file = wave(&wave_format(1, 1, 16_000, 2, 16, &[]));
    let bad = wave(&wave_format(1, 1, 0, 2, 16, &[]));
    recognised(&concat(&[&id3(3, 0, &[0; 300]), &file]), 0, s16le(), 16_000);
    refused(&concat(&[&id3(3, 0, &[0; 300]), &bad]));
    // What the tag holds is not looked at.
    let holds = concat(&[&[0; 20], &bad[..]]);
    recognised(&concat(&[&id3(3, 0, &holds), &file]), 0, s16le(), 16_000);
}

#[test]
fn tag_restrictions_leave_the_second_bit_clear() {
    let file = wave(&wave_format(1, 1, 16_000, 2, 16, &[]));
    let extended = |restrictions: u8| {
        let header = [0, 0, 0, 17, 1, 0x70, 1, 5, 0, 0, 0, 0, 0, 1, restrictions];
        concat(&[&id3(4, 0x40, &concat(&[&header, &[0; 40]])), &file])
    };
    recognised(&extended(0xBF), 0, s16le(), 16_000);
    refused(&extended(0x40));
}

#[test]
fn flac_is_recognised() {
    let mut header = vec![0xFF, 0xF8, 0xC5, 0x08, 0x00];
    let mut crc = 0u8;
    for byte in &header {
        crc ^= byte;
        for _ in 0..8 {
            crc = (crc << 1) ^ (if crc >> 7 == 1 { 0x07 } else { 0 });
        }
    }
    header.push(crc);
    let bytes = concat(&[
        b"fLaC",
        &[0x80, 0, 0, 34],
        &[0x10, 0, 0x10, 0, 0, 0, 0, 0, 0, 0],
        &[0x03, 0xE8, 0x00, 0xF0, 0, 0, 0, 0],
        &[0; 16],
        &header,
        &[0; 32],
    ]);
    recognised(&bytes, 0, flac(), 16_000);
}

#[test]
fn mpeg_audio_is_recognised() {
    // Two frames of 144 * 128000 / 44100 bytes.
    let mut frame = vec![0xFF, 0xFB, 0x90, 0xC0];
    frame.resize(417, 0);
    recognised(&concat(&[&frame, &frame]), 0, mp3(), 44_100);
}

#[test]
fn marker_near_the_end_is_none() {
    assert!(can_be_probed(b""));
    assert!(can_be_probed(b"caff"));
    assert!(can_be_probed(b"caff and 11 more"[..15].as_ref()));
    assert!(!can_be_probed(b"caff and 11 more"));
    assert!(!can_be_probed(b"junk, then caff and 11 more"));
}

#[test]
fn tags_of_iso_media_hold_their_headers() {
    let tagged = |tag: Vec<u8>| {
        let movie = Movie::new(sample_entry(b"sowt", 0, &[])).bytes();
        let moov = movie.windows(4).position(|kind| kind == b"moov").unwrap();
        let mdat = movie.windows(4).position(|kind| kind == b"mdat").unwrap();
        let udta = atom(b"udta", &[&atom(b"meta", &[&[0; 4], &atom(b"ilst", &[&tag])])]);
        let atoms = concat(&[&movie[moov + 4..mdat - 4], &udta]);
        concat(&[&movie[..moov - 4], &atom(b"moov", &[&atoms]), &movie[mdat - 4..]])
    };
    let title = atom(b"data", &[&[0, 0, 0, 1, 0, 0, 0, 0], b"title"]);
    recognised(&tagged(atom(b"\xA9nam", &[&title])), 0, s16le(), 16_000);
    refused(&tagged(atom(b"\xA9nam", &[&atom(b"data", &[&[0; 7]])])));
    refused(&tagged(atom(b"----", &[&atom(b"mean", &[&[0; 3]])])));
    // What stands in a tag of another kind is not looked at.
    recognised(&tagged(atom(b"none", &[&[0xFF; 20]])), 0, s16le(), 16_000);
    // A tag that extends to the end of the list counts as empty.
    recognised(&tagged(concat(&[&[0; 4], b"\xA9nam", &[0xFF; 20]])), 0, s16le(), 16_000);
}

#[test]
fn tables_of_iso_media_have_their_entries() {
    let movie = Movie::new(sample_entry(b"sowt", 0, &[])).bytes();
    for kind in [b"stts", b"stsc", b"stsz", b"stco"] {
        let at = movie.windows(4).position(|tag| tag == kind).unwrap();
        let count = if kind == b"stsz" { at + 12 } else { at + 8 };
        let mut longer = movie.clone();
        longer[count..count + 4].copy_from_slice(&0x4000_0000u32.to_be_bytes());
        refused(&longer);
    }
}

#[test]
fn streamed_wave_file_is_recognised() {
    let format = wave_format(1, 2, 44_100, 4, 16, &[]);
    let info = concat(&[b"INFOISFT", &13u32.to_le_bytes(), b"Lavf58.29.10\0\0"]);
    let bytes = concat(&[
        b"RIFF\xFF\xFF\xFF\xFFWAVE",
        b"JUNK\x03\0\0\0abc\0",
        b"fmt \x10\0\0\0",
        &format,
        b"LIST",
        &(info.len() as u32).to_le_bytes(),
        &info,
        b"data\xFF\xFF\xFF\xFF",
        &[0; 32],
    ]);
    recognised(&bytes, 0, s16le(), 44_100);
}

#[test]
fn streamed_matroska_file_is_recognised() {
    let mut bytes = matroska(&[0x0F, 0x42, 0x40], b"A_OPUS", &[]);
    let segment = bytes.windows(4).position(|id| id == [0x18, 0x53, 0x80, 0x67]).unwrap();
    let cluster = bytes.windows(4).position(|id| id == [0x1F, 0x43, 0xB6, 0x75]).unwrap();
    let unknown = [0x01, 0xFF, 0xFF, 0xFF, 0xFF, 0xFF, 0xFF, 0xFF];
    bytes.splice(cluster + 4..cluster + 8, unknown);
    // Padding in front of the parts of the segment.
    bytes.splice(segment + 4..segment + 8, concat(&[&unknown, &[0xEC, 0x83, 1, 2, 3]]));
    recognised(&bytes, 7, opus(), 48_000);
    // So it is from its first bytes, up to the first audio.
    recognised(&bytes[..bytes.len() - 2], 7, opus(), 48_000);
}
