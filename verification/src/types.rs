//! The values that an MPD and an MPD Patch are read into.
use vstd::prelude::*;

verus! {

/// An MPD (Media Presentation Description): the root `MPD` element.
#[derive(Debug, Clone, PartialEq, Eq)]
pub struct Mpd {
    /// The `id` attribute.
    pub id: Option<String>,
    /// The `type` attribute.
    pub presentation_type: PresentationType,
    /// The `mediaPresentationDuration` attribute: the text of an ISO 8601 duration.
    pub media_presentation_duration: Option<String>,
    /// The `minBufferTime` attribute: the text of an ISO 8601 duration.
    pub min_buffer_time: String,
    /// The `minimumUpdatePeriod` attribute: the text of an ISO 8601 duration.
    pub minimum_update_period: Option<String>,
    /// The `availabilityStartTime` attribute.
    pub availability_start_time: Option<String>,
    /// The `availabilityEndTime` attribute.
    pub availability_end_time: Option<String>,
    /// The `timeShiftBufferDepth` attribute: the text of an ISO 8601 duration.
    pub time_shift_buffer_depth: Option<String>,
    /// The `suggestedPresentationDelay` attribute: the text of an ISO 8601 duration.
    pub suggested_presentation_delay: Option<String>,
    /// The `publishTime` attribute.
    pub publish_time: Option<String>,
    /// The `maxSegmentDuration` attribute: the text of an ISO 8601 duration.
    pub max_segment_duration: Option<String>,
    /// The `maxSubsegmentDuration` attribute: the text of an ISO 8601 duration.
    pub max_subsegment_duration: Option<String>,
    /// The `profiles` attribute.
    pub profiles: String,
    /// The `BaseURL` elements.
    pub base_urls: Vec<BaseUrl>,
    /// The `UTCTiming` elements.
    pub utc_timings: Vec<UtcTiming>,
    /// The `Location` elements.
    pub locations: Vec<Location>,
    /// The `ServiceDescription` elements.
    pub service_descriptions: Vec<ServiceDescription>,
    /// The `ContentSteering` child element.
    pub content_steering: Option<ContentSteering>,
    /// The `PatchLocation` elements.
    pub patch_locations: Vec<PatchLocation>,
    /// The `EssentialProperty` elements.
    pub essential_properties: Vec<Descriptor>,
    /// The `SupplementalProperty` elements.
    pub supplemental_properties: Vec<Descriptor>,
    /// The `Metrics` elements.
    pub metrics: Vec<Metrics>,
    /// The `Period` elements.
    pub periods: Vec<Period>,
}

/// A `BaseURL` element.
#[derive(Debug, Clone, PartialEq, Eq)]
pub struct BaseUrl {
    /// The text content of the element.
    pub url: String,
    /// The `serviceLocation` attribute.
    pub service_location: Option<String>,
    /// The `availabilityTimeOffset` attribute, as written: a decimal number.
    pub availability_time_offset: Option<String>,
    /// The `availabilityTimeComplete` attribute.
    pub availability_time_complete: Option<bool>,
    /// The `byteRange` attribute.
    pub byte_range: Option<String>,
    /// The `dvb:priority` attribute.
    pub dvb_priority: Option<u32>,
    /// The `dvb:weight` attribute.
    pub dvb_weight: Option<u32>,
}

/// A `PatchLocation` element: where MPD patches are fetched.
#[derive(Debug, Clone, PartialEq, Eq)]
pub struct PatchLocation {
    /// The text content of the element.
    pub url: String,
    /// The `serviceLocation` attribute.
    pub service_location: Option<String>,
    /// The `ttl` attribute, as written: a decimal number.
    pub ttl: Option<String>,
}

/// Whether the presentation is on demand or live.
#[derive(Debug, Clone, Copy, PartialEq, Eq, Structural)]
pub enum PresentationType {
    /// `static`: on demand.
    Static,
    /// `dynamic`: live.
    Dynamic,
}

/// A `Period` element.
#[derive(Debug, Clone, PartialEq, Eq)]
pub struct Period {
    /// The `id` attribute.
    pub id: Option<String>,
    /// The `start` attribute: the text of an ISO 8601 duration.
    pub start: Option<String>,
    /// The `duration` attribute: the text of an ISO 8601 duration.
    pub duration: Option<String>,
    /// The `xlink:href` attribute.
    pub xlink_href: Option<String>,
    /// The `xlink:actuate` attribute.
    pub xlink_actuate: Option<String>,
    /// The `BaseURL` elements.
    pub base_urls: Vec<BaseUrl>,
    /// The `SupplementalProperty` elements.
    pub supplemental_properties: Vec<Descriptor>,
    /// The `EssentialProperty` elements.
    pub essential_properties: Vec<Descriptor>,
    /// The `AssetIdentifier` child element.
    pub asset_identifier: Option<Descriptor>,
    /// The `EventStream` elements.
    pub event_streams: Vec<EventStream>,
    /// The `Preselection` elements.
    pub preselections: Vec<Preselection>,
    /// The `SegmentBase` child element.
    pub segment_base: Option<SegmentBase>,
    /// The `SegmentList` child element.
    pub segment_list: Option<SegmentList>,
    /// The `SegmentTemplate` child element.
    pub segment_template: Option<SegmentTemplate>,
    /// The `Subset` elements.
    pub subsets: Vec<Subset>,
    /// The `AdaptationSet` elements.
    pub adaptation_sets: Vec<AdaptationSet>,
}

/// An `AdaptationSet` element.
#[derive(Debug, Clone, PartialEq, Eq)]
pub struct AdaptationSet {
    /// The `id` attribute.
    pub id: Option<u32>,
    /// The `mimeType` attribute.
    pub mime_type: Option<String>,
    /// The `codecs` attribute.
    pub codecs: Option<String>,
    /// The `contentType` attribute.
    pub content_type: Option<ContentType>,
    /// The `lang` attribute.
    pub lang: Option<String>,
    /// The `width` attribute.
    pub width: Option<u32>,
    /// The `height` attribute.
    pub height: Option<u32>,
    /// The `frameRate` attribute.
    pub frame_rate: Option<String>,
    /// The `minWidth` attribute.
    pub min_width: Option<u32>,
    /// The `minHeight` attribute.
    pub min_height: Option<u32>,
    /// The `minFrameRate` attribute.
    pub min_frame_rate: Option<String>,
    /// The `minBandwidth` attribute.
    pub min_bandwidth: Option<u64>,
    /// The `maxBandwidth` attribute.
    pub max_bandwidth: Option<u64>,
    /// The `maxWidth` attribute.
    pub max_width: Option<u32>,
    /// The `maxHeight` attribute.
    pub max_height: Option<u32>,
    /// The `maxFrameRate` attribute.
    pub max_frame_rate: Option<String>,
    /// The `par` attribute.
    pub par: Option<String>,
    /// The `audioSamplingRate` attribute.
    pub audio_sampling_rate: Option<u32>,
    /// The `sar` attribute.
    pub sar: Option<String>,
    /// The `profiles` attribute.
    pub profiles: Option<String>,
    /// The `scanType` attribute.
    pub scan_type: Option<String>,
    /// The `startWithSAP` attribute.
    pub start_with_sap: Option<u32>,
    /// The `maxPlayoutRate` attribute, as written: a decimal number.
    pub max_playout_rate: Option<String>,
    /// The `selectionPriority` attribute.
    pub selection_priority: Option<u32>,
    /// The `codingDependency` attribute.
    pub coding_dependency: Option<bool>,
    /// The `scte214:supplementalCodecs` attribute.
    pub supplemental_codecs: Option<String>,
    /// The `maximumSAPPeriod` attribute: the text of an ISO 8601 duration.
    pub maximum_sap_period: Option<String>,
    /// The `segmentProfiles` attribute.
    pub segment_profiles: Option<String>,
    /// The `segmentAlignment` attribute.
    pub segment_alignment: bool,
    /// The `subsegmentAlignment` attribute.
    pub subsegment_alignment: bool,
    /// The `bitstreamSwitching` attribute.
    pub bitstream_switching: Option<bool>,
    /// The `BaseURL` elements.
    pub base_urls: Vec<BaseUrl>,
    /// The `Role` elements.
    pub roles: Vec<Descriptor>,
    /// The `Accessibility` elements.
    pub accessibilities: Vec<Descriptor>,
    /// The `AudioChannelConfiguration` elements.
    pub audio_channel_configurations: Vec<Descriptor>,
    /// The `Label` elements.
    pub labels: Vec<Label>,
    /// The `GroupLabel` elements.
    pub group_labels: Vec<Label>,
    /// The `EssentialProperty` elements.
    pub essential_properties: Vec<Descriptor>,
    /// The `SupplementalProperty` elements.
    pub supplemental_properties: Vec<Descriptor>,
    /// The `Viewpoint` elements.
    pub viewpoints: Vec<Descriptor>,
    /// The `FramePacking` elements.
    pub frame_packings: Vec<Descriptor>,
    /// The `InbandEventStream` elements.
    pub inband_event_streams: Vec<Descriptor>,
    /// The `ProducerReferenceTime` elements.
    pub producer_reference_times: Vec<ProducerReferenceTime>,
    /// The `ContentComponent` elements.
    pub content_components: Vec<ContentComponent>,
    /// The `SegmentSequenceProperties` elements.
    pub segment_sequence_properties: Vec<SegmentSequenceProperties>,
    /// The `SegmentBase` child element.
    pub segment_base: Option<SegmentBase>,
    /// The `SegmentList` child element.
    pub segment_list: Option<SegmentList>,
    /// The `SegmentTemplate` child element.
    pub segment_template: Option<SegmentTemplate>,
    /// The `EventStream` elements.
    pub event_streams: Vec<EventStream>,
    /// The `ContentProtection` elements.
    pub content_protections: Vec<ContentProtection>,
    /// The `Representation` elements.
    pub representations: Vec<Representation>,
}

/// The value of `contentType`.
#[derive(Debug, Clone, Copy, PartialEq, Eq, Structural)]
pub enum ContentType {
    Video,
    Audio,
    Text,
    /// Thumbnail images.
    Image,
    /// Audio and video multiplexed.
    Muxed,
}

/// A `Representation` element.
#[derive(Debug, Clone, PartialEq, Eq)]
pub struct Representation {
    /// The `id` attribute (required).
    pub id: String,
    /// The `bandwidth` attribute (required).
    pub bandwidth: u64,
    /// The `width` attribute.
    pub width: Option<u32>,
    /// The `height` attribute.
    pub height: Option<u32>,
    /// The `codecs` attribute.
    pub codecs: Option<String>,
    /// The `frameRate` attribute.
    pub frame_rate: Option<String>,
    /// The `audioSamplingRate` attribute.
    pub audio_sampling_rate: Option<u32>,
    /// The `mimeType` attribute.
    pub mime_type: Option<String>,
    /// The `sar` attribute.
    pub sar: Option<String>,
    /// The `qualityRanking` attribute.
    pub quality_ranking: Option<u32>,
    /// The `dependencyId` attribute.
    pub dependency_id: Option<String>,
    /// The `maxPlayoutRate` attribute, as written: a decimal number.
    pub max_playout_rate: Option<String>,
    /// The `scanType` attribute.
    pub scan_type: Option<String>,
    /// The `startWithSAP` attribute.
    pub start_with_sap: Option<u32>,
    /// The `profiles` attribute.
    pub profiles: Option<String>,
    /// The `codingDependency` attribute.
    pub coding_dependency: Option<bool>,
    /// The `scte214:supplementalCodecs` attribute.
    pub supplemental_codecs: Option<String>,
    /// The `codecPrivateData` attribute.
    pub codec_private_data: Option<String>,
    /// The `mediaStreamStructureId` attribute.
    pub media_stream_structure_id: Option<String>,
    /// The `maximumSAPPeriod` attribute: the text of an ISO 8601 duration.
    pub maximum_sap_period: Option<String>,
    /// The `segmentProfiles` attribute.
    pub segment_profiles: Option<String>,
    /// The `BaseURL` elements.
    pub base_urls: Vec<BaseUrl>,
    /// The `AudioChannelConfiguration` elements.
    pub audio_channel_configurations: Vec<Descriptor>,
    /// The `EssentialProperty` elements.
    pub essential_properties: Vec<Descriptor>,
    /// The `SupplementalProperty` elements.
    pub supplemental_properties: Vec<Descriptor>,
    /// The `FramePacking` elements.
    pub frame_packings: Vec<Descriptor>,
    /// The `InbandEventStream` elements.
    pub inband_event_streams: Vec<Descriptor>,
    /// The `ProducerReferenceTime` elements.
    pub producer_reference_times: Vec<ProducerReferenceTime>,
    /// The `SegmentSequenceProperties` elements.
    pub segment_sequence_properties: Vec<SegmentSequenceProperties>,
    /// The `SubRepresentation` elements.
    pub sub_representations: Vec<SubRepresentation>,
    /// The `SegmentBase` child element.
    pub segment_base: Option<SegmentBase>,
    /// The `SegmentList` child element.
    pub segment_list: Option<SegmentList>,
    /// The `SegmentTemplate` child element.
    pub segment_template: Option<SegmentTemplate>,
    /// The `ContentProtection` elements.
    pub content_protections: Vec<ContentProtection>,
}

/// A `SegmentTemplate` element.
#[derive(Debug, Clone, PartialEq, Eq)]
pub struct SegmentTemplate {
    /// The `media` attribute.
    pub media: Option<String>,
    /// The `initialization` attribute.
    pub initialization: Option<String>,
    /// The `index` attribute.
    pub index: Option<String>,
    /// The `timescale` attribute (1 when absent).
    pub timescale: u64,
    /// The `duration` attribute.
    pub duration: Option<u64>,
    /// The `startNumber` attribute (1 when absent).
    pub start_number: u64,
    /// The `endNumber` attribute.
    pub end_number: Option<u64>,
    /// The `presentationTimeOffset` attribute.
    pub presentation_time_offset: u64,
    /// The `availabilityTimeOffset` attribute, as written: a decimal number.
    pub availability_time_offset: Option<String>,
    /// The `availabilityTimeComplete` attribute.
    pub availability_time_complete: Option<bool>,
    /// The `sourceURL` attribute of the `BitstreamSwitching` child element.
    pub bitstream_switching_source_url: Option<String>,
    /// The `range` attribute of the `BitstreamSwitching` child element.
    pub bitstream_switching_range: Option<String>,
    /// The `SegmentTimeline` child element.
    pub segment_timeline: Option<Vec<TimelineEntry>>,
}

/// An `S` element of a `SegmentTimeline`.
#[derive(Debug, Clone, Copy, PartialEq, Eq, Structural)]
pub struct TimelineEntry {
    /// The `t` attribute.
    pub t: Option<u64>,
    /// The `d` attribute.
    pub d: u64,
    /// The `r` attribute (0 when absent).
    pub r: i64,
    /// The `k` attribute.
    pub k: Option<u64>,
}

/// A `SegmentBase` element.
#[derive(Debug, Clone, PartialEq, Eq)]
pub struct SegmentBase {
    /// The `timescale` attribute (1 when absent).
    pub timescale: u64,
    /// The `presentationTimeOffset` attribute.
    pub presentation_time_offset: u64,
    /// The `indexRange` attribute.
    pub index_range: Option<String>,
    /// The `indexRangeExact` attribute.
    pub index_range_exact: Option<bool>,
    /// The `availabilityTimeOffset` attribute, as written: a decimal number.
    pub availability_time_offset: Option<String>,
    /// The `availabilityTimeComplete` attribute.
    pub availability_time_complete: Option<bool>,
    /// The `sourceURL` attribute of the `Initialization` child element.
    pub initialization_source_url: Option<String>,
    /// The `range` attribute of the `Initialization` child element.
    pub initialization_range: Option<String>,
    /// The `sourceURL` attribute of the `RepresentationIndex` child element.
    pub representation_index_source_url: Option<String>,
    /// The `range` attribute of the `RepresentationIndex` child element.
    pub representation_index_range: Option<String>,
    /// The `sourceURL` attribute of the `BitstreamSwitching` child element.
    pub bitstream_switching_source_url: Option<String>,
    /// The `range` attribute of the `BitstreamSwitching` child element.
    pub bitstream_switching_range: Option<String>,
}

/// A `SegmentList` element.
#[derive(Debug, Clone, PartialEq, Eq)]
pub struct SegmentList {
    /// The `xlink:href` attribute.
    pub xlink_href: Option<String>,
    /// The `xlink:actuate` attribute.
    pub xlink_actuate: Option<String>,
    /// The `timescale` attribute (1 when absent).
    pub timescale: u64,
    /// The `duration` attribute.
    pub duration: Option<u64>,
    /// The `startNumber` attribute (1 when absent).
    pub start_number: u64,
    /// The `endNumber` attribute.
    pub end_number: Option<u64>,
    /// The `presentationTimeOffset` attribute.
    pub presentation_time_offset: u64,
    /// The `availabilityTimeOffset` attribute, as written: a decimal number.
    pub availability_time_offset: Option<String>,
    /// The `availabilityTimeComplete` attribute.
    pub availability_time_complete: Option<bool>,
    /// The `sourceURL` attribute of the `Initialization` child element.
    pub initialization_source_url: Option<String>,
    /// The `range` attribute of the `Initialization` child element.
    pub initialization_range: Option<String>,
    /// The `sourceURL` attribute of the `RepresentationIndex` child element.
    pub representation_index_source_url: Option<String>,
    /// The `range` attribute of the `RepresentationIndex` child element.
    pub representation_index_range: Option<String>,
    /// The `sourceURL` attribute of the `BitstreamSwitching` child element.
    pub bitstream_switching_source_url: Option<String>,
    /// The `range` attribute of the `BitstreamSwitching` child element.
    pub bitstream_switching_range: Option<String>,
    /// The `SegmentURL` elements.
    pub segment_urls: Vec<SegmentUrl>,
    /// The `SegmentTimeline` child element.
    pub segment_timeline: Option<Vec<TimelineEntry>>,
}

/// A `SegmentURL` element of a `SegmentList`.
#[derive(Debug, Clone, PartialEq, Eq)]
pub struct SegmentUrl {
    /// The `media` attribute.
    pub media: Option<String>,
    /// The `mediaRange` attribute.
    pub media_range: Option<String>,
    /// The `indexRange` attribute.
    pub index_range: Option<String>,
}

/// A descriptor element (`Role`, `Accessibility`, `AudioChannelConfiguration` and the like).
#[derive(Debug, Clone, PartialEq, Eq)]
pub struct Descriptor {
    /// The `schemeIdUri` attribute (required).
    pub scheme_id_uri: String,
    /// The `value` attribute.
    pub value: Option<String>,
    /// The `id` attribute.
    pub id: Option<String>,
    /// The `dvb:url` attribute.
    pub dvb_url: Option<String>,
    /// The `dvb:mimeType` attribute.
    pub dvb_mime_type: Option<String>,
    /// The `dvb:fontFamily` attribute.
    pub dvb_font_family: Option<String>,
}

impl Descriptor {
    /// Whether any of the DVB extension attributes is set.
    pub fn has_dvb_extension(&self) -> (b: bool)
        ensures
            b == (self.dvb_url is Some || self.dvb_mime_type is Some || self.dvb_font_family is Some),
    {
        self.dvb_url.is_some() || self.dvb_mime_type.is_some() || self.dvb_font_family.is_some()
    }
}

/// A `UTCTiming` element.
#[derive(Debug, Clone, PartialEq, Eq)]
pub struct UtcTiming {
    /// The `schemeIdUri` attribute (required).
    pub scheme_id_uri: String,
    /// The `value` attribute.
    pub value: Option<String>,
    /// The `id` attribute.
    pub id: Option<String>,
}

/// A `ContentProtection` element.
#[derive(Debug, Clone, PartialEq, Eq)]
pub struct ContentProtection {
    /// The `schemeIdUri` attribute.
    pub scheme_id_uri: String,
    /// The `value` attribute.
    pub value: Option<String>,
    /// The `cenc:default_KID` attribute.
    pub default_kid: Option<String>,
    /// The text of the `cenc:pssh` child element.
    pub pssh: Option<String>,
    /// The `robustness` attribute.
    pub robustness: Option<String>,
    /// The `ref` attribute.
    pub ref_: Option<String>,
    /// The `refId` attribute.
    pub ref_id: Option<String>,
    /// The text of the `Laurl` child element.
    pub laurl: Option<String>,
    /// The text of the `pro` child element.
    pub pro: Option<String>,
    /// The `Certurl` child elements.
    pub certurls: Vec<CertUrl>,
}

/// An `EventStream` element.
#[derive(Debug, Clone, PartialEq, Eq)]
pub struct EventStream {
    /// The `schemeIdUri` attribute (required).
    pub scheme_id_uri: String,
    /// The `value` attribute.
    pub value: Option<String>,
    /// The `timescale` attribute (1 when absent).
    pub timescale: u64,
    /// The `presentationTimeOffset` attribute (0 when absent).
    pub presentation_time_offset: u64,
    /// The `Event` elements.
    pub events: Vec<Event>,
}

/// An `Event` element of an `EventStream`.
#[derive(Debug, Clone, PartialEq, Eq)]
pub struct Event {
    /// The `presentationTime` attribute (0 when absent).
    pub presentation_time: u64,
    /// The `duration` attribute.
    pub duration: Option<u64>,
    /// The `id` attribute.
    pub id: Option<String>,
    /// The `messageData` attribute.
    pub message_data: Option<String>,
    /// The text content of the element.
    pub content: Option<String>,
    /// The text of the `Signal/Binary` child element.
    pub signal_binary: Option<String>,
}

/// A `Location` element.
#[derive(Debug, Clone, PartialEq, Eq)]
pub struct Location {
    /// The text content of the element.
    pub url: String,
    /// The `serviceLocation` attribute.
    pub service_location: Option<String>,
}

/// A `ServiceDescription` element.
#[derive(Debug, Clone, PartialEq, Eq)]
pub struct ServiceDescription {
    /// The `id` attribute.
    pub id: Option<u32>,
    /// The `Scope` child element.
    pub scope: Option<Descriptor>,
    /// The `Latency` child element.
    pub latency: Option<Latency>,
    /// The `PlaybackRate` child element.
    pub playback_rate: Option<PlaybackRate>,
    /// The `OperatingQuality` child element.
    pub operating_quality: Option<OperatingQuality>,
    /// The `OperatingBandwidth` child element.
    pub operating_bandwidth: Option<OperatingBandwidth>,
    /// The `ClientDataReporting` child element.
    pub client_data_reporting: Option<ClientDataReporting>,
}

/// The `Latency` element of a `ServiceDescription`.
#[derive(Debug, Clone, PartialEq, Eq)]
pub struct Latency {
    /// The `target` attribute.
    pub target: Option<u32>,
    /// The `min` attribute.
    pub min: Option<u32>,
    /// The `max` attribute.
    pub max: Option<u32>,
    /// The `referenceId` attribute.
    pub reference_id: Option<u32>,
}

/// The `PlaybackRate` element of a `ServiceDescription`.
#[derive(Debug, Clone, PartialEq, Eq)]
pub struct PlaybackRate {
    /// The `min` attribute, as written: a decimal number.
    pub min: Option<String>,
    /// The `max` attribute, as written: a decimal number.
    pub max: Option<String>,
}

/// A `ContentSteering` element.
#[derive(Debug, Clone, PartialEq, Eq)]
pub struct ContentSteering {
    /// The text content of the element.
    pub server_url: String,
    /// The `defaultServiceLocation` attribute.
    pub default_service_location: Option<String>,
    /// The `queryBeforeStart` attribute.
    pub query_before_start: Option<bool>,
    /// The `clientRequirement` attribute.
    pub client_requirement: Option<bool>,
}

/// A `ProducerReferenceTime` element.
#[derive(Debug, Clone, PartialEq, Eq)]
pub struct ProducerReferenceTime {
    /// The `id` attribute (required).
    pub id: u32,
    /// The `inband` attribute.
    pub inband: Option<bool>,
    /// The `type` attribute.
    pub type_: Option<String>,
    /// The `applicationScheme` attribute.
    pub application_scheme: Option<String>,
    /// The `wallClockTime` attribute (required).
    pub wall_clock_time: String,
    /// The `presentationTime` attribute (required).
    pub presentation_time: u64,
    /// The `UTCTiming` child element.
    pub utc_timing: Option<UtcTiming>,
}

/// A `SubRepresentation` element.
#[derive(Debug, Clone, PartialEq, Eq)]
pub struct SubRepresentation {
    /// The `level` attribute.
    pub level: Option<u32>,
    /// The `bandwidth` attribute.
    pub bandwidth: Option<u64>,
    /// The `contentComponent` attribute.
    pub content_component: Option<String>,
    /// The `codecs` attribute.
    pub codecs: Option<String>,
    /// The `dependencyLevel` attribute.
    pub dependency_level: Option<String>,
    /// The `width` attribute.
    pub width: Option<u32>,
    /// The `height` attribute.
    pub height: Option<u32>,
    /// The `mimeType` attribute.
    pub mime_type: Option<String>,
    /// The `frameRate` attribute.
    pub frame_rate: Option<String>,
    /// The `audioSamplingRate` attribute.
    pub audio_sampling_rate: Option<u32>,
    /// The `sar` attribute.
    pub sar: Option<String>,
    /// The `scanType` attribute.
    pub scan_type: Option<String>,
    /// The `profiles` attribute.
    pub profiles: Option<String>,
    /// The `startWithSAP` attribute.
    pub start_with_sap: Option<u32>,
    /// The `maxPlayoutRate` attribute, as written: a decimal number.
    pub max_playout_rate: Option<String>,
    /// The `codingDependency` attribute.
    pub coding_dependency: Option<bool>,
    /// The `maximumSAPPeriod` attribute: the text of an ISO 8601 duration.
    pub maximum_sap_period: Option<String>,
    /// The `segmentProfiles` attribute.
    pub segment_profiles: Option<String>,
    /// The `ContentProtection` elements.
    pub content_protections: Vec<ContentProtection>,
    /// The `AudioChannelConfiguration` elements.
    pub audio_channel_configurations: Vec<Descriptor>,
    /// The `FramePacking` elements.
    pub frame_packings: Vec<Descriptor>,
    /// The `InbandEventStream` elements.
    pub inband_event_streams: Vec<Descriptor>,
    /// The `EssentialProperty` elements.
    pub essential_properties: Vec<Descriptor>,
    /// The `SupplementalProperty` elements.
    pub supplemental_properties: Vec<Descriptor>,
    /// The `SegmentSequenceProperties` elements.
    pub segment_sequence_properties: Vec<SegmentSequenceProperties>,
}

/// A `Preselection` element.
#[derive(Debug, Clone, PartialEq, Eq)]
pub struct Preselection {
    /// The `id` attribute.
    pub id: Option<String>,
    /// The `preselectionComponents` attribute.
    pub preselection_components: Option<String>,
    /// The `lang` attribute.
    pub lang: Option<String>,
    /// The `tag` attribute.
    pub tag: Option<String>,
    /// The `order` attribute.
    pub order: Option<u32>,
    /// The `contentType` attribute.
    pub content_type: Option<String>,
    /// The `mimeType` attribute.
    pub mime_type: Option<String>,
    /// The `codecs` attribute.
    pub codecs: Option<String>,
    /// The `Accessibility` elements.
    pub accessibilities: Vec<Descriptor>,
    /// The `Role` elements.
    pub roles: Vec<Descriptor>,
    /// The `Viewpoint` elements.
    pub viewpoints: Vec<Descriptor>,
    /// The `Label` elements.
    pub labels: Vec<Label>,
    /// The `EssentialProperty` elements.
    pub essential_properties: Vec<Descriptor>,
    /// The `SupplementalProperty` elements.
    pub supplemental_properties: Vec<Descriptor>,
}

/// A `ContentComponent` element.
#[derive(Debug, Clone, PartialEq, Eq)]
pub struct ContentComponent {
    /// The `id` attribute.
    pub id: Option<String>,
    /// The `contentType` attribute.
    pub content_type: Option<String>,
    /// The `lang` attribute.
    pub lang: Option<String>,
    /// The `Accessibility` elements.
    pub accessibilities: Vec<Descriptor>,
    /// The `Role` elements.
    pub roles: Vec<Descriptor>,
}

/// An `OperatingQuality` element.
#[derive(Debug, Clone, PartialEq, Eq)]
pub struct OperatingQuality {
    /// The `mediaType` attribute.
    pub media_type: Option<String>,
    /// The `min` attribute.
    pub min: Option<u32>,
    /// The `max` attribute.
    pub max: Option<u32>,
    /// The `target` attribute.
    pub target: Option<u32>,
    /// The `type` attribute.
    pub type_: Option<String>,
    /// The `maxQualityDifference` attribute.
    pub max_quality_difference: Option<u32>,
}

/// An `OperatingBandwidth` element.
#[derive(Debug, Clone, PartialEq, Eq)]
pub struct OperatingBandwidth {
    /// The `mediaType` attribute.
    pub media_type: Option<String>,
    /// The `min` attribute.
    pub min: Option<u32>,
    /// The `max` attribute.
    pub max: Option<u32>,
    /// The `target` attribute.
    pub target: Option<u32>,
}

/// A `Label` (or `GroupLabel`) element.
#[derive(Debug, Clone, PartialEq, Eq)]
pub struct Label {
    /// The `lang` attribute.
    pub lang: Option<String>,
    /// The text content of the element.
    pub text: String,
}

/// A `Certurl` element of a `ContentProtection`.
#[derive(Debug, Clone, PartialEq, Eq)]
pub struct CertUrl {
    /// The text content of the element.
    pub url: String,
    /// The `certType` attribute.
    pub cert_type: Option<String>,
}

/// A `ClientDataReporting` element.
#[derive(Debug, Clone, PartialEq, Eq)]
pub struct ClientDataReporting {
    /// The `serviceLocations` attribute.
    pub service_locations: Option<String>,
    /// The `adaptationSets` attribute.
    pub adaptation_sets: Option<String>,
    /// The `CMCDParameters` child element.
    pub cmcd_parameters: Option<CmcdParameters>,
}

/// A `CMCDParameters` element (CTA-5004).
#[derive(Debug, Clone, PartialEq, Eq)]
pub struct CmcdParameters {
    /// The `schemeIdUri` attribute (required).
    pub scheme_id_uri: String,
    /// The `value` attribute.
    pub value: Option<String>,
    /// The `id` attribute.
    pub id: Option<String>,
    /// The `version` attribute.
    pub version: Option<String>,
    /// The `sessionID` attribute.
    pub session_id: Option<String>,
    /// The `contentID` attribute.
    pub content_id: Option<String>,
    /// The `mode` attribute.
    pub mode: Option<String>,
    /// The `keys` attribute.
    pub keys: Option<String>,
    /// The `includeInRequests` attribute.
    pub include_in_requests: Option<String>,
}

/// A `Metrics` element of the MPD.
#[derive(Debug, Clone, PartialEq, Eq)]
pub struct Metrics {
    /// The `metrics` attribute (required).
    pub metrics: String,
    /// The `Reporting` child elements.
    pub reportings: Vec<Descriptor>,
    /// The `Range` child elements.
    pub ranges: Vec<MetricsRange>,
}

/// A `Range` element of `Metrics`.
#[derive(Debug, Clone, PartialEq, Eq)]
pub struct MetricsRange {
    /// The `starttime` attribute: the text of an ISO 8601 duration.
    pub starttime: Option<String>,
    /// The `duration` attribute: the text of an ISO 8601 duration.
    pub duration: Option<String>,
}

/// A `Subset` element of a `Period`.
#[derive(Debug, Clone, PartialEq, Eq)]
pub struct Subset {
    /// The `contains` attribute (required).
    pub contains: String,
    /// The `id` attribute.
    pub id: Option<String>,
}

/// A `SegmentSequenceProperties` element.
#[derive(Debug, Clone, PartialEq, Eq)]
pub struct SegmentSequenceProperties {
    /// The `cadence` attribute.
    pub cadence: Option<u32>,
    /// The `sapType` attribute.
    pub sap_type: Option<u32>,
    /// The `event` attribute.
    pub event: Option<bool>,
    /// The `alignment` attribute.
    pub alignment: Option<String>,
}


/// The kind of a patch operation.
#[derive(Debug, Clone, Copy, PartialEq, Eq, Structural)]
pub enum PatchAction {
    /// Adds an element or an attribute.
    Add,
    /// Removes an element or an attribute.
    Remove,
    /// Replaces an element or an attribute.
    Replace,
}

/// Where an `add` operation inserts.
#[derive(Debug, Clone, Copy, PartialEq, Eq, Structural)]
pub enum PatchPosition {
    /// Before the target element, as its sibling.
    Before,
    /// After the target element, as its sibling.
    After,
    /// At the start of the target element's children.
    Prepend,
}

/// One patch operation (add, remove or replace).
#[derive(Debug, Clone, PartialEq, Eq)]
pub struct PatchOperation {
    /// The kind of the operation.
    pub action: PatchAction,
    /// The XPath selector of the target.
    pub selector: String,
    /// Where to insert (for `add` only).
    pub position: Option<PatchPosition>,
    /// The operation's value: an XML fragment, or text for an attribute.
    pub value: Option<String>,
}

/// An MPD Patch document: a differential update of a live MPD.
#[derive(Debug, Clone, PartialEq, Eq)]
pub struct PatchDocument {
    /// `mpdId`: the id of the MPD that the patch applies to.
    pub mpd_id: String,
    /// `originalPublishTime`: the publish time of the MPD that it applies to.
    pub original_publish_time: String,
    /// `publishTime`: the publish time of this patch.
    pub publish_time: String,
    /// The operations, in order.
    pub operations: Vec<PatchOperation>,
}

/// A patch operation as plain values.
pub struct PatchOperationV {
    pub action: PatchAction,
    pub selector: Seq<char>,
    pub position: Option<PatchPosition>,
    pub value: Option<Seq<char>>,
}

/// A patch document as plain values.
pub struct PatchDocumentV {
    pub mpd_id: Seq<char>,
    pub original_publish_time: Seq<char>,
    pub publish_time: Seq<char>,
    pub operations: Seq<PatchOperationV>,
}

impl View for PatchOperation {
    type V = PatchOperationV;

    open spec fn view(&self) -> PatchOperationV {
        PatchOperationV {
            action: self.action,
            selector: self.selector@,
            position: self.position,
            value: match self.value {
                Some(v) => Some(v@),
                None => None,
            },
        }
    }
}

impl View for PatchDocument {
    type V = PatchDocumentV;

    open spec fn view(&self) -> PatchDocumentV {
        PatchDocumentV {
            mpd_id: self.mpd_id@,
            original_publish_time: self.original_publish_time@,
            publish_time: self.publish_time@,
            operations: self.operations@.map_values(|o: PatchOperation| o@),
        }
    }
}

} // verus!
