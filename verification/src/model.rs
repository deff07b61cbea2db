//! The MPD values seen as plain values, which the contracts of the reader
//! speak of.
use vstd::prelude::*;

use crate::dom::opt_view;
use crate::types::{
    AdaptationSet, BaseUrl, CertUrl, ClientDataReporting, CmcdParameters, ContentComponent,
    ContentProtection, ContentSteering, ContentType, Descriptor, Event, EventStream, Label, Latency,
    Location, Metrics, MetricsRange, Mpd, OperatingBandwidth, OperatingQuality, PatchLocation,
    Period, PlaybackRate, Preselection, PresentationType, ProducerReferenceTime, Representation,
    SegmentBase, SegmentList, SegmentSequenceProperties, SegmentTemplate, SegmentUrl,
    ServiceDescription, SubRepresentation, Subset, TimelineEntry, UtcTiming,
};

verus! {

/// The views of the items of `s`.
pub open spec fn views<T: View>(s: Seq<T>) -> Seq<T::V> {
    s.map_values(|t: T| t@)
}

pub proof fn lemma_views_push<T: View>(s: Seq<T>, e: T)
    ensures
        views(s.push(e)) == views(s).push(e@),
{
    assert(views(s.push(e)) =~= views(s).push(e@));
}

/// A `Mpd` as plain values.
pub struct MpdV {
    pub id: Option<Seq<char>>,
    pub presentation_type: PresentationType,
    pub media_presentation_duration: Option<Seq<char>>,
    pub min_buffer_time: Seq<char>,
    pub minimum_update_period: Option<Seq<char>>,
    pub availability_start_time: Option<Seq<char>>,
    pub availability_end_time: Option<Seq<char>>,
    pub time_shift_buffer_depth: Option<Seq<char>>,
    pub suggested_presentation_delay: Option<Seq<char>>,
    pub publish_time: Option<Seq<char>>,
    pub max_segment_duration: Option<Seq<char>>,
    pub max_subsegment_duration: Option<Seq<char>>,
    pub profiles: Seq<char>,
    pub base_urls: Seq<BaseUrlV>,
    pub utc_timings: Seq<UtcTimingV>,
    pub locations: Seq<LocationV>,
    pub service_descriptions: Seq<ServiceDescriptionV>,
    pub content_steering: Option<ContentSteeringV>,
    pub patch_locations: Seq<PatchLocationV>,
    pub essential_properties: Seq<DescriptorV>,
    pub supplemental_properties: Seq<DescriptorV>,
    pub metrics: Seq<MetricsV>,
    pub periods: Seq<PeriodV>,
}

impl View for Mpd {
    type V = MpdV;

    open spec fn view(&self) -> MpdV {
        MpdV {
            id: opt_view(self.id),
            presentation_type: self.presentation_type,
            media_presentation_duration: opt_view(self.media_presentation_duration),
            min_buffer_time: self.min_buffer_time@,
            minimum_update_period: opt_view(self.minimum_update_period),
            availability_start_time: opt_view(self.availability_start_time),
            availability_end_time: opt_view(self.availability_end_time),
            time_shift_buffer_depth: opt_view(self.time_shift_buffer_depth),
            suggested_presentation_delay: opt_view(self.suggested_presentation_delay),
            publish_time: opt_view(self.publish_time),
            max_segment_duration: opt_view(self.max_segment_duration),
            max_subsegment_duration: opt_view(self.max_subsegment_duration),
            profiles: self.profiles@,
            base_urls: views(self.base_urls@),
            utc_timings: views(self.utc_timings@),
            locations: views(self.locations@),
            service_descriptions: views(self.service_descriptions@),
            content_steering: match self.content_steering {
                Some(v) => Some(v@),
                None => None,
            },
            patch_locations: views(self.patch_locations@),
            essential_properties: views(self.essential_properties@),
            supplemental_properties: views(self.supplemental_properties@),
            metrics: views(self.metrics@),
            periods: views(self.periods@),
        }
    }
}

/// A `BaseUrl` as plain values.
pub struct BaseUrlV {
    pub url: Seq<char>,
    pub service_location: Option<Seq<char>>,
    pub availability_time_offset: Option<Seq<char>>,
    pub availability_time_complete: Option<bool>,
    pub byte_range: Option<Seq<char>>,
    pub dvb_priority: Option<u32>,
    pub dvb_weight: Option<u32>,
}

impl View for BaseUrl {
    type V = BaseUrlV;

    open spec fn view(&self) -> BaseUrlV {
        BaseUrlV {
            url: self.url@,
            service_location: opt_view(self.service_location),
            availability_time_offset: opt_view(self.availability_time_offset),
            availability_time_complete: self.availability_time_complete,
            byte_range: opt_view(self.byte_range),
            dvb_priority: self.dvb_priority,
            dvb_weight: self.dvb_weight,
        }
    }
}

/// A `PatchLocation` as plain values.
pub struct PatchLocationV {
    pub url: Seq<char>,
    pub service_location: Option<Seq<char>>,
    pub ttl: Option<Seq<char>>,
}

impl View for PatchLocation {
    type V = PatchLocationV;

    open spec fn view(&self) -> PatchLocationV {
        PatchLocationV {
            url: self.url@,
            service_location: opt_view(self.service_location),
            ttl: opt_view(self.ttl),
        }
    }
}

/// A `Period` as plain values.
pub struct PeriodV {
    pub id: Option<Seq<char>>,
    pub start: Option<Seq<char>>,
    pub duration: Option<Seq<char>>,
    pub xlink_href: Option<Seq<char>>,
    pub xlink_actuate: Option<Seq<char>>,
    pub base_urls: Seq<BaseUrlV>,
    pub supplemental_properties: Seq<DescriptorV>,
    pub essential_properties: Seq<DescriptorV>,
    pub asset_identifier: Option<DescriptorV>,
    pub event_streams: Seq<EventStreamV>,
    pub preselections: Seq<PreselectionV>,
    pub segment_base: Option<SegmentBaseV>,
    pub segment_list: Option<SegmentListV>,
    pub segment_template: Option<SegmentTemplateV>,
    pub subsets: Seq<SubsetV>,
    pub adaptation_sets: Seq<AdaptationSetV>,
}

impl View for Period {
    type V = PeriodV;

    open spec fn view(&self) -> PeriodV {
        PeriodV {
            id: opt_view(self.id),
            start: opt_view(self.start),
            duration: opt_view(self.duration),
            xlink_href: opt_view(self.xlink_href),
            xlink_actuate: opt_view(self.xlink_actuate),
            base_urls: views(self.base_urls@),
            supplemental_properties: views(self.supplemental_properties@),
            essential_properties: views(self.essential_properties@),
            asset_identifier: match self.asset_identifier {
                Some(v) => Some(v@),
                None => None,
            },
            event_streams: views(self.event_streams@),
            preselections: views(self.preselections@),
            segment_base: match self.segment_base {
                Some(v) => Some(v@),
                None => None,
            },
            segment_list: match self.segment_list {
                Some(v) => Some(v@),
                None => None,
            },
            segment_template: match self.segment_template {
                Some(v) => Some(v@),
                None => None,
            },
            subsets: views(self.subsets@),
            adaptation_sets: views(self.adaptation_sets@),
        }
    }
}

/// A `AdaptationSet` as plain values.
pub struct AdaptationSetV {
    pub id: Option<u32>,
    pub mime_type: Option<Seq<char>>,
    pub codecs: Option<Seq<char>>,
    pub content_type: Option<ContentType>,
    pub lang: Option<Seq<char>>,
    pub width: Option<u32>,
    pub height: Option<u32>,
    pub frame_rate: Option<Seq<char>>,
    pub min_width: Option<u32>,
    pub min_height: Option<u32>,
    pub min_frame_rate: Option<Seq<char>>,
    pub min_bandwidth: Option<u64>,
    pub max_bandwidth: Option<u64>,
    pub max_width: Option<u32>,
    pub max_height: Option<u32>,
    pub max_frame_rate: Option<Seq<char>>,
    pub par: Option<Seq<char>>,
    pub audio_sampling_rate: Option<u32>,
    pub sar: Option<Seq<char>>,
    pub profiles: Option<Seq<char>>,
    pub scan_type: Option<Seq<char>>,
    pub start_with_sap: Option<u32>,
    pub max_playout_rate: Option<Seq<char>>,
    pub selection_priority: Option<u32>,
    pub coding_dependency: Option<bool>,
    pub supplemental_codecs: Option<Seq<char>>,
    pub maximum_sap_period: Option<Seq<char>>,
    pub segment_profiles: Option<Seq<char>>,
    pub segment_alignment: bool,
    pub subsegment_alignment: bool,
    pub bitstream_switching: Option<bool>,
    pub base_urls: Seq<BaseUrlV>,
    pub roles: Seq<DescriptorV>,
    pub accessibilities: Seq<DescriptorV>,
    pub audio_channel_configurations: Seq<DescriptorV>,
    pub labels: Seq<LabelV>,
    pub group_labels: Seq<LabelV>,
    pub essential_properties: Seq<DescriptorV>,
    pub supplemental_properties: Seq<DescriptorV>,
    pub viewpoints: Seq<DescriptorV>,
    pub frame_packings: Seq<DescriptorV>,
    pub inband_event_streams: Seq<DescriptorV>,
    pub producer_reference_times: Seq<ProducerReferenceTimeV>,
    pub content_components: Seq<ContentComponentV>,
    pub segment_sequence_properties: Seq<SegmentSequencePropertiesV>,
    pub segment_base: Option<SegmentBaseV>,
    pub segment_list: Option<SegmentListV>,
    pub segment_template: Option<SegmentTemplateV>,
    pub event_streams: Seq<EventStreamV>,
    pub content_protections: Seq<ContentProtectionV>,
    pub representations: Seq<RepresentationV>,
}

impl View for AdaptationSet {
    type V = AdaptationSetV;

    open spec fn view(&self) -> AdaptationSetV {
        AdaptationSetV {
            id: self.id,
            mime_type: opt_view(self.mime_type),
            codecs: opt_view(self.codecs),
            content_type: self.content_type,
            lang: opt_view(self.lang),
            width: self.width,
            height: self.height,
            frame_rate: opt_view(self.frame_rate),
            min_width: self.min_width,
            min_height: self.min_height,
            min_frame_rate: opt_view(self.min_frame_rate),
            min_bandwidth: self.min_bandwidth,
            max_bandwidth: self.max_bandwidth,
            max_width: self.max_width,
            max_height: self.max_height,
            max_frame_rate: opt_view(self.max_frame_rate),
            par: opt_view(self.par),
            audio_sampling_rate: self.audio_sampling_rate,
            sar: opt_view(self.sar),
            profiles: opt_view(self.profiles),
            scan_type: opt_view(self.scan_type),
            start_with_sap: self.start_with_sap,
            max_playout_rate: opt_view(self.max_playout_rate),
            selection_priority: self.selection_priority,
            coding_dependency: self.coding_dependency,
            supplemental_codecs: opt_view(self.supplemental_codecs),
            maximum_sap_period: opt_view(self.maximum_sap_period),
            segment_profiles: opt_view(self.segment_profiles),
            segment_alignment: self.segment_alignment,
            subsegment_alignment: self.subsegment_alignment,
            bitstream_switching: self.bitstream_switching,
            base_urls: views(self.base_urls@),
            roles: views(self.roles@),
            accessibilities: views(self.accessibilities@),
            audio_channel_configurations: views(self.audio_channel_configurations@),
            labels: views(self.labels@),
            group_labels: views(self.group_labels@),
            essential_properties: views(self.essential_properties@),
            supplemental_properties: views(self.supplemental_properties@),
            viewpoints: views(self.viewpoints@),
            frame_packings: views(self.frame_packings@),
            inband_event_streams: views(self.inband_event_streams@),
            producer_reference_times: views(self.producer_reference_times@),
            content_components: views(self.content_components@),
            segment_sequence_properties: views(self.segment_sequence_properties@),
            segment_base: match self.segment_base {
                Some(v) => Some(v@),
                None => None,
            },
            segment_list: match self.segment_list {
                Some(v) => Some(v@),
                None => None,
            },
            segment_template: match self.segment_template {
                Some(v) => Some(v@),
                None => None,
            },
            event_streams: views(self.event_streams@),
            content_protections: views(self.content_protections@),
            representations: views(self.representations@),
        }
    }
}

/// A `Representation` as plain values.
pub struct RepresentationV {
    pub id: Seq<char>,
    pub bandwidth: u64,
    pub width: Option<u32>,
    pub height: Option<u32>,
    pub codecs: Option<Seq<char>>,
    pub frame_rate: Option<Seq<char>>,
    pub audio_sampling_rate: Option<u32>,
    pub mime_type: Option<Seq<char>>,
    pub sar: Option<Seq<char>>,
    pub quality_ranking: Option<u32>,
    pub dependency_id: Option<Seq<char>>,
    pub max_playout_rate: Option<Seq<char>>,
    pub scan_type: Option<Seq<char>>,
    pub start_with_sap: Option<u32>,
    pub profiles: Option<Seq<char>>,
    pub coding_dependency: Option<bool>,
    pub supplemental_codecs: Option<Seq<char>>,
    pub codec_private_data: Option<Seq<char>>,
    pub media_stream_structure_id: Option<Seq<char>>,
    pub maximum_sap_period: Option<Seq<char>>,
    pub segment_profiles: Option<Seq<char>>,
    pub base_urls: Seq<BaseUrlV>,
    pub audio_channel_configurations: Seq<DescriptorV>,
    pub essential_properties: Seq<DescriptorV>,
    pub supplemental_properties: Seq<DescriptorV>,
    pub frame_packings: Seq<DescriptorV>,
    pub inband_event_streams: Seq<DescriptorV>,
    pub producer_reference_times: Seq<ProducerReferenceTimeV>,
    pub segment_sequence_properties: Seq<SegmentSequencePropertiesV>,
    pub sub_representations: Seq<SubRepresentationV>,
    pub segment_base: Option<SegmentBaseV>,
    pub segment_list: Option<SegmentListV>,
    pub segment_template: Option<SegmentTemplateV>,
    pub content_protections: Seq<ContentProtectionV>,
}

impl View for Representation {
    type V = RepresentationV;

    open spec fn view(&self) -> RepresentationV {
        RepresentationV {
            id: self.id@,
            bandwidth: self.bandwidth,
            width: self.width,
            height: self.height,
            codecs: opt_view(self.codecs),
            frame_rate: opt_view(self.frame_rate),
            audio_sampling_rate: self.audio_sampling_rate,
            mime_type: opt_view(self.mime_type),
            sar: opt_view(self.sar),
            quality_ranking: self.quality_ranking,
            dependency_id: opt_view(self.dependency_id),
            max_playout_rate: opt_view(self.max_playout_rate),
            scan_type: opt_view(self.scan_type),
            start_with_sap: self.start_with_sap,
            profiles: opt_view(self.profiles),
            coding_dependency: self.coding_dependency,
            supplemental_codecs: opt_view(self.supplemental_codecs),
            codec_private_data: opt_view(self.codec_private_data),
            media_stream_structure_id: opt_view(self.media_stream_structure_id),
            maximum_sap_period: opt_view(self.maximum_sap_period),
            segment_profiles: opt_view(self.segment_profiles),
            base_urls: views(self.base_urls@),
            audio_channel_configurations: views(self.audio_channel_configurations@),
            essential_properties: views(self.essential_properties@),
            supplemental_properties: views(self.supplemental_properties@),
            frame_packings: views(self.frame_packings@),
            inband_event_streams: views(self.inband_event_streams@),
            producer_reference_times: views(self.producer_reference_times@),
            segment_sequence_properties: views(self.segment_sequence_properties@),
            sub_representations: views(self.sub_representations@),
            segment_base: match self.segment_base {
                Some(v) => Some(v@),
                None => None,
            },
            segment_list: match self.segment_list {
                Some(v) => Some(v@),
                None => None,
            },
            segment_template: match self.segment_template {
                Some(v) => Some(v@),
                None => None,
            },
            content_protections: views(self.content_protections@),
        }
    }
}

/// A `SegmentTemplate` as plain values.
pub struct SegmentTemplateV {
    pub media: Option<Seq<char>>,
    pub initialization: Option<Seq<char>>,
    pub index: Option<Seq<char>>,
    pub timescale: u64,
    pub duration: Option<u64>,
    pub start_number: u64,
    pub end_number: Option<u64>,
    pub presentation_time_offset: u64,
    pub availability_time_offset: Option<Seq<char>>,
    pub availability_time_complete: Option<bool>,
    pub bitstream_switching_source_url: Option<Seq<char>>,
    pub bitstream_switching_range: Option<Seq<char>>,
    pub segment_timeline: Option<Seq<TimelineEntry>>,
}

impl View for SegmentTemplate {
    type V = SegmentTemplateV;

    open spec fn view(&self) -> SegmentTemplateV {
        SegmentTemplateV {
            media: opt_view(self.media),
            initialization: opt_view(self.initialization),
            index: opt_view(self.index),
            timescale: self.timescale,
            duration: self.duration,
            start_number: self.start_number,
            end_number: self.end_number,
            presentation_time_offset: self.presentation_time_offset,
            availability_time_offset: opt_view(self.availability_time_offset),
            availability_time_complete: self.availability_time_complete,
            bitstream_switching_source_url: opt_view(self.bitstream_switching_source_url),
            bitstream_switching_range: opt_view(self.bitstream_switching_range),
            segment_timeline: match self.segment_timeline {
                Some(v) => Some(v@),
                None => None,
            },
        }
    }
}

/// A `SegmentBase` as plain values.
pub struct SegmentBaseV {
    pub timescale: u64,
    pub presentation_time_offset: u64,
    pub index_range: Option<Seq<char>>,
    pub index_range_exact: Option<bool>,
    pub availability_time_offset: Option<Seq<char>>,
    pub availability_time_complete: Option<bool>,
    pub initialization_source_url: Option<Seq<char>>,
    pub initialization_range: Option<Seq<char>>,
    pub representation_index_source_url: Option<Seq<char>>,
    pub representation_index_range: Option<Seq<char>>,
    pub bitstream_switching_source_url: Option<Seq<char>>,
    pub bitstream_switching_range: Option<Seq<char>>,
}

impl View for SegmentBase {
    type V = SegmentBaseV;

    open spec fn view(&self) -> SegmentBaseV {
        SegmentBaseV {
            timescale: self.timescale,
            presentation_time_offset: self.presentation_time_offset,
            index_range: opt_view(self.index_range),
            index_range_exact: self.index_range_exact,
            availability_time_offset: opt_view(self.availability_time_offset),
            availability_time_complete: self.availability_time_complete,
            initialization_source_url: opt_view(self.initialization_source_url),
            initialization_range: opt_view(self.initialization_range),
            representation_index_source_url: opt_view(self.representation_index_source_url),
            representation_index_range: opt_view(self.representation_index_range),
            bitstream_switching_source_url: opt_view(self.bitstream_switching_source_url),
            bitstream_switching_range: opt_view(self.bitstream_switching_range),
        }
    }
}

/// A `SegmentList` as plain values.
pub struct SegmentListV {
    pub xlink_href: Option<Seq<char>>,
    pub xlink_actuate: Option<Seq<char>>,
    pub timescale: u64,
    pub duration: Option<u64>,
    pub start_number: u64,
    pub end_number: Option<u64>,
    pub presentation_time_offset: u64,
    pub availability_time_offset: Option<Seq<char>>,
    pub availability_time_complete: Option<bool>,
    pub initialization_source_url: Option<Seq<char>>,
    pub initialization_range: Option<Seq<char>>,
    pub representation_index_source_url: Option<Seq<char>>,
    pub representation_index_range: Option<Seq<char>>,
    pub bitstream_switching_source_url: Option<Seq<char>>,
    pub bitstream_switching_range: Option<Seq<char>>,
    pub segment_urls: Seq<SegmentUrlV>,
    pub segment_timeline: Option<Seq<TimelineEntry>>,
}

impl View for SegmentList {
    type V = SegmentListV;

    open spec fn view(&self) -> SegmentListV {
        SegmentListV {
            xlink_href: opt_view(self.xlink_href),
            xlink_actuate: opt_view(self.xlink_actuate),
            timescale: self.timescale,
            duration: self.duration,
            start_number: self.start_number,
            end_number: self.end_number,
            presentation_time_offset: self.presentation_time_offset,
            availability_time_offset: opt_view(self.availability_time_offset),
            availability_time_complete: self.availability_time_complete,
            initialization_source_url: opt_view(self.initialization_source_url),
            initialization_range: opt_view(self.initialization_range),
            representation_index_source_url: opt_view(self.representation_index_source_url),
            representation_index_range: opt_view(self.representation_index_range),
            bitstream_switching_source_url: opt_view(self.bitstream_switching_source_url),
            bitstream_switching_range: opt_view(self.bitstream_switching_range),
            segment_urls: views(self.segment_urls@),
            segment_timeline: match self.segment_timeline {
                Some(v) => Some(v@),
                None => None,
            },
        }
    }
}

/// A `SegmentUrl` as plain values.
pub struct SegmentUrlV {
    pub media: Option<Seq<char>>,
    pub media_range: Option<Seq<char>>,
    pub index_range: Option<Seq<char>>,
}

impl View for SegmentUrl {
    type V = SegmentUrlV;

    open spec fn view(&self) -> SegmentUrlV {
        SegmentUrlV {
            media: opt_view(self.media),
            media_range: opt_view(self.media_range),
            index_range: opt_view(self.index_range),
        }
    }
}

/// A `Descriptor` as plain values.
pub struct DescriptorV {
    pub scheme_id_uri: Seq<char>,
    pub value: Option<Seq<char>>,
    pub id: Option<Seq<char>>,
    pub dvb_url: Option<Seq<char>>,
    pub dvb_mime_type: Option<Seq<char>>,
    pub dvb_font_family: Option<Seq<char>>,
}

impl View for Descriptor {
    type V = DescriptorV;

    open spec fn view(&self) -> DescriptorV {
        DescriptorV {
            scheme_id_uri: self.scheme_id_uri@,
            value: opt_view(self.value),
            id: opt_view(self.id),
            dvb_url: opt_view(self.dvb_url),
            dvb_mime_type: opt_view(self.dvb_mime_type),
            dvb_font_family: opt_view(self.dvb_font_family),
        }
    }
}

/// A `UtcTiming` as plain values.
pub struct UtcTimingV {
    pub scheme_id_uri: Seq<char>,
    pub value: Option<Seq<char>>,
    pub id: Option<Seq<char>>,
}

impl View for UtcTiming {
    type V = UtcTimingV;

    open spec fn view(&self) -> UtcTimingV {
        UtcTimingV {
            scheme_id_uri: self.scheme_id_uri@,
            value: opt_view(self.value),
            id: opt_view(self.id),
        }
    }
}

/// A `ContentProtection` as plain values.
pub struct ContentProtectionV {
    pub scheme_id_uri: Seq<char>,
    pub value: Option<Seq<char>>,
    pub default_kid: Option<Seq<char>>,
    pub pssh: Option<Seq<char>>,
    pub robustness: Option<Seq<char>>,
    pub ref_: Option<Seq<char>>,
    pub ref_id: Option<Seq<char>>,
    pub laurl: Option<Seq<char>>,
    pub pro: Option<Seq<char>>,
    pub certurls: Seq<CertUrlV>,
}

impl View for ContentProtection {
    type V = ContentProtectionV;

    open spec fn view(&self) -> ContentProtectionV {
        ContentProtectionV {
            scheme_id_uri: self.scheme_id_uri@,
            value: opt_view(self.value),
            default_kid: opt_view(self.default_kid),
            pssh: opt_view(self.pssh),
            robustness: opt_view(self.robustness),
            ref_: opt_view(self.ref_),
            ref_id: opt_view(self.ref_id),
            laurl: opt_view(self.laurl),
            pro: opt_view(self.pro),
            certurls: views(self.certurls@),
        }
    }
}

/// A `EventStream` as plain values.
pub struct EventStreamV {
    pub scheme_id_uri: Seq<char>,
    pub value: Option<Seq<char>>,
    pub timescale: u64,
    pub presentation_time_offset: u64,
    pub events: Seq<EventV>,
}

impl View for EventStream {
    type V = EventStreamV;

    open spec fn view(&self) -> EventStreamV {
        EventStreamV {
            scheme_id_uri: self.scheme_id_uri@,
            value: opt_view(self.value),
            timescale: self.timescale,
            presentation_time_offset: self.presentation_time_offset,
            events: views(self.events@),
        }
    }
}

/// A `Event` as plain values.
pub struct EventV {
    pub presentation_time: u64,
    pub duration: Option<u64>,
    pub id: Option<Seq<char>>,
    pub message_data: Option<Seq<char>>,
    pub content: Option<Seq<char>>,
    pub signal_binary: Option<Seq<char>>,
}

impl View for Event {
    type V = EventV;

    open spec fn view(&self) -> EventV {
        EventV {
            presentation_time: self.presentation_time,
            duration: self.duration,
            id: opt_view(self.id),
            message_data: opt_view(self.message_data),
            content: opt_view(self.content),
            signal_binary: opt_view(self.signal_binary),
        }
    }
}

/// A `Location` as plain values.
pub struct LocationV {
    pub url: Seq<char>,
    pub service_location: Option<Seq<char>>,
}

impl View for Location {
    type V = LocationV;

    open spec fn view(&self) -> LocationV {
        LocationV {
            url: self.url@,
            service_location: opt_view(self.service_location),
        }
    }
}

/// A `ServiceDescription` as plain values.
pub struct ServiceDescriptionV {
    pub id: Option<u32>,
    pub scope: Option<DescriptorV>,
    pub latency: Option<LatencyV>,
    pub playback_rate: Option<PlaybackRateV>,
    pub operating_quality: Option<OperatingQualityV>,
    pub operating_bandwidth: Option<OperatingBandwidthV>,
    pub client_data_reporting: Option<ClientDataReportingV>,
}

impl View for ServiceDescription {
    type V = ServiceDescriptionV;

    open spec fn view(&self) -> ServiceDescriptionV {
        ServiceDescriptionV {
            id: self.id,
            scope: match self.scope {
                Some(v) => Some(v@),
                None => None,
            },
            latency: match self.latency {
                Some(v) => Some(v@),
                None => None,
            },
            playback_rate: match self.playback_rate {
                Some(v) => Some(v@),
                None => None,
            },
            operating_quality: match self.operating_quality {
                Some(v) => Some(v@),
                None => None,
            },
            operating_bandwidth: match self.operating_bandwidth {
                Some(v) => Some(v@),
                None => None,
            },
            client_data_reporting: match self.client_data_reporting {
                Some(v) => Some(v@),
                None => None,
            },
        }
    }
}

/// A `Latency` as plain values.
pub struct LatencyV {
    pub target: Option<u32>,
    pub min: Option<u32>,
    pub max: Option<u32>,
    pub reference_id: Option<u32>,
}

impl View for Latency {
    type V = LatencyV;

    open spec fn view(&self) -> LatencyV {
        LatencyV {
            target: self.target,
            min: self.min,
            max: self.max,
            reference_id: self.reference_id,
        }
    }
}

/// A `PlaybackRate` as plain values.
pub struct PlaybackRateV {
    pub min: Option<Seq<char>>,
    pub max: Option<Seq<char>>,
}

impl View for PlaybackRate {
    type V = PlaybackRateV;

    open spec fn view(&self) -> PlaybackRateV {
        PlaybackRateV {
            min: opt_view(self.min),
            max: opt_view(self.max),
        }
    }
}

/// A `ContentSteering` as plain values.
pub struct ContentSteeringV {
    pub server_url: Seq<char>,
    pub default_service_location: Option<Seq<char>>,
    pub query_before_start: Option<bool>,
    pub client_requirement: Option<bool>,
}

impl View for ContentSteering {
    type V = ContentSteeringV;

    open spec fn view(&self) -> ContentSteeringV {
        ContentSteeringV {
            server_url: self.server_url@,
            default_service_location: opt_view(self.default_service_location),
            query_before_start: self.query_before_start,
            client_requirement: self.client_requirement,
        }
    }
}

/// A `ProducerReferenceTime` as plain values.
pub struct ProducerReferenceTimeV {
    pub id: u32,
    pub inband: Option<bool>,
    pub type_: Option<Seq<char>>,
    pub application_scheme: Option<Seq<char>>,
    pub wall_clock_time: Seq<char>,
    pub presentation_time: u64,
    pub utc_timing: Option<UtcTimingV>,
}

impl View for ProducerReferenceTime {
    type V = ProducerReferenceTimeV;

    open spec fn view(&self) -> ProducerReferenceTimeV {
        ProducerReferenceTimeV {
            id: self.id,
            inband: self.inband,
            type_: opt_view(self.type_),
            application_scheme: opt_view(self.application_scheme),
            wall_clock_time: self.wall_clock_time@,
            presentation_time: self.presentation_time,
            utc_timing: match self.utc_timing {
                Some(v) => Some(v@),
                None => None,
            },
        }
    }
}

/// A `SubRepresentation` as plain values.
pub struct SubRepresentationV {
    pub level: Option<u32>,
    pub bandwidth: Option<u64>,
    pub content_component: Option<Seq<char>>,
    pub codecs: Option<Seq<char>>,
    pub dependency_level: Option<Seq<char>>,
    pub width: Option<u32>,
    pub height: Option<u32>,
    pub mime_type: Option<Seq<char>>,
    pub frame_rate: Option<Seq<char>>,
    pub audio_sampling_rate: Option<u32>,
    pub sar: Option<Seq<char>>,
    pub scan_type: Option<Seq<char>>,
    pub profiles: Option<Seq<char>>,
    pub start_with_sap: Option<u32>,
    pub max_playout_rate: Option<Seq<char>>,
    pub coding_dependency: Option<bool>,
    pub maximum_sap_period: Option<Seq<char>>,
    pub segment_profiles: Option<Seq<char>>,
    pub content_protections: Seq<ContentProtectionV>,
    pub audio_channel_configurations: Seq<DescriptorV>,
    pub frame_packings: Seq<DescriptorV>,
    pub inband_event_streams: Seq<DescriptorV>,
    pub essential_properties: Seq<DescriptorV>,
    pub supplemental_properties: Seq<DescriptorV>,
    pub segment_sequence_properties: Seq<SegmentSequencePropertiesV>,
}

impl View for SubRepresentation {
    type V = SubRepresentationV;

    open spec fn view(&self) -> SubRepresentationV {
        SubRepresentationV {
            level: self.level,
            bandwidth: self.bandwidth,
            content_component: opt_view(self.content_component),
            codecs: opt_view(self.codecs),
            dependency_level: opt_view(self.dependency_level),
            width: self.width,
            height: self.height,
            mime_type: opt_view(self.mime_type),
            frame_rate: opt_view(self.frame_rate),
            audio_sampling_rate: self.audio_sampling_rate,
            sar: opt_view(self.sar),
            scan_type: opt_view(self.scan_type),
            profiles: opt_view(self.profiles),
            start_with_sap: self.start_with_sap,
            max_playout_rate: opt_view(self.max_playout_rate),
            coding_dependency: self.coding_dependency,
            maximum_sap_period: opt_view(self.maximum_sap_period),
            segment_profiles: opt_view(self.segment_profiles),
            content_protections: views(self.content_protections@),
            audio_channel_configurations: views(self.audio_channel_configurations@),
            frame_packings: views(self.frame_packings@),
            inband_event_streams: views(self.inband_event_streams@),
            essential_properties: views(self.essential_properties@),
            supplemental_properties: views(self.supplemental_properties@),
            segment_sequence_properties: views(self.segment_sequence_properties@),
        }
    }
}

/// A `Preselection` as plain values.
pub struct PreselectionV {
    pub id: Option<Seq<char>>,
    pub preselection_components: Option<Seq<char>>,
    pub lang: Option<Seq<char>>,
    pub tag: Option<Seq<char>>,
    pub order: Option<u32>,
    pub content_type: Option<Seq<char>>,
    pub mime_type: Option<Seq<char>>,
    pub codecs: Option<Seq<char>>,
    pub accessibilities: Seq<DescriptorV>,
    pub roles: Seq<DescriptorV>,
    pub viewpoints: Seq<DescriptorV>,
    pub labels: Seq<LabelV>,
    pub essential_properties: Seq<DescriptorV>,
    pub supplemental_properties: Seq<DescriptorV>,
}

impl View for Preselection {
    type V = PreselectionV;

    open spec fn view(&self) -> PreselectionV {
        PreselectionV {
            id: opt_view(self.id),
            preselection_components: opt_view(self.preselection_components),
            lang: opt_view(self.lang),
            tag: opt_view(self.tag),
            order: self.order,
            content_type: opt_view(self.content_type),
            mime_type: opt_view(self.mime_type),
            codecs: opt_view(self.codecs),
            accessibilities: views(self.accessibilities@),
            roles: views(self.roles@),
            viewpoints: views(self.viewpoints@),
            labels: views(self.labels@),
            essential_properties: views(self.essential_properties@),
            supplemental_properties: views(self.supplemental_properties@),
        }
    }
}

/// A `ContentComponent` as plain values.
pub struct ContentComponentV {
    pub id: Option<Seq<char>>,
    pub content_type: Option<Seq<char>>,
    pub lang: Option<Seq<char>>,
    pub accessibilities: Seq<DescriptorV>,
    pub roles: Seq<DescriptorV>,
}

impl View for ContentComponent {
    type V = ContentComponentV;

    open spec fn view(&self) -> ContentComponentV {
        ContentComponentV {
            id: opt_view(self.id),
            content_type: opt_view(self.content_type),
            lang: opt_view(self.lang),
            accessibilities: views(self.accessibilities@),
            roles: views(self.roles@),
        }
    }
}

/// A `OperatingQuality` as plain values.
pub struct OperatingQualityV {
    pub media_type: Option<Seq<char>>,
    pub min: Option<u32>,
    pub max: Option<u32>,
    pub target: Option<u32>,
    pub type_: Option<Seq<char>>,
    pub max_quality_difference: Option<u32>,
}

impl View for OperatingQuality {
    type V = OperatingQualityV;

    open spec fn view(&self) -> OperatingQualityV {
        OperatingQualityV {
            media_type: opt_view(self.media_type),
            min: self.min,
            max: self.max,
            target: self.target,
            type_: opt_view(self.type_),
            max_quality_difference: self.max_quality_difference,
        }
    }
}

/// A `OperatingBandwidth` as plain values.
pub struct OperatingBandwidthV {
    pub media_type: Option<Seq<char>>,
    pub min: Option<u32>,
    pub max: Option<u32>,
    pub target: Option<u32>,
}

impl View for OperatingBandwidth {
    type V = OperatingBandwidthV;

    open spec fn view(&self) -> OperatingBandwidthV {
        OperatingBandwidthV {
            media_type: opt_view(self.media_type),
            min: self.min,
            max: self.max,
            target: self.target,
        }
    }
}

/// A `Label` as plain values.
pub struct LabelV {
    pub lang: Option<Seq<char>>,
    pub text: Seq<char>,
}

impl View for Label {
    type V = LabelV;

    open spec fn view(&self) -> LabelV {
        LabelV {
            lang: opt_view(self.lang),
            text: self.text@,
        }
    }
}

/// A `CertUrl` as plain values.
pub struct CertUrlV {
    pub url: Seq<char>,
    pub cert_type: Option<Seq<char>>,
}

impl View for CertUrl {
    type V = CertUrlV;

    open spec fn view(&self) -> CertUrlV {
        CertUrlV {
            url: self.url@,
            cert_type: opt_view(self.cert_type),
        }
    }
}

/// A `ClientDataReporting` as plain values.
pub struct ClientDataReportingV {
    pub service_locations: Option<Seq<char>>,
    pub adaptation_sets: Option<Seq<char>>,
    pub cmcd_parameters: Option<CmcdParametersV>,
}

impl View for ClientDataReporting {
    type V = ClientDataReportingV;

    open spec fn view(&self) -> ClientDataReportingV {
        ClientDataReportingV {
            service_locations: opt_view(self.service_locations),
            adaptation_sets: opt_view(self.adaptation_sets),
            cmcd_parameters: match self.cmcd_parameters {
                Some(v) => Some(v@),
                None => None,
            },
        }
    }
}

/// A `CmcdParameters` as plain values.
pub struct CmcdParametersV {
    pub scheme_id_uri: Seq<char>,
    pub value: Option<Seq<char>>,
    pub id: Option<Seq<char>>,
    pub version: Option<Seq<char>>,
    pub session_id: Option<Seq<char>>,
    pub content_id: Option<Seq<char>>,
    pub mode: Option<Seq<char>>,
    pub keys: Option<Seq<char>>,
    pub include_in_requests: Option<Seq<char>>,
}

impl View for CmcdParameters {
    type V = CmcdParametersV;

    open spec fn view(&self) -> CmcdParametersV {
        CmcdParametersV {
            scheme_id_uri: self.scheme_id_uri@,
            value: opt_view(self.value),
            id: opt_view(self.id),
            version: opt_view(self.version),
            session_id: opt_view(self.session_id),
            content_id: opt_view(self.content_id),
            mode: opt_view(self.mode),
            keys: opt_view(self.keys),
            include_in_requests: opt_view(self.include_in_requests),
        }
    }
}

/// A `Metrics` as plain values.
pub struct MetricsV {
    pub metrics: Seq<char>,
    pub reportings: Seq<DescriptorV>,
    pub ranges: Seq<MetricsRangeV>,
}

impl View for Metrics {
    type V = MetricsV;

    open spec fn view(&self) -> MetricsV {
        MetricsV {
            metrics: self.metrics@,
            reportings: views(self.reportings@),
            ranges: views(self.ranges@),
        }
    }
}

/// A `MetricsRange` as plain values.
pub struct MetricsRangeV {
    pub starttime: Option<Seq<char>>,
    pub duration: Option<Seq<char>>,
}

impl View for MetricsRange {
    type V = MetricsRangeV;

    open spec fn view(&self) -> MetricsRangeV {
        MetricsRangeV {
            starttime: opt_view(self.starttime),
            duration: opt_view(self.duration),
        }
    }
}

/// A `Subset` as plain values.
pub struct SubsetV {
    pub contains: Seq<char>,
    pub id: Option<Seq<char>>,
}

impl View for Subset {
    type V = SubsetV;

    open spec fn view(&self) -> SubsetV {
        SubsetV {
            contains: self.contains@,
            id: opt_view(self.id),
        }
    }
}

/// A `SegmentSequenceProperties` as plain values.
pub struct SegmentSequencePropertiesV {
    pub cadence: Option<u32>,
    pub sap_type: Option<u32>,
    pub event: Option<bool>,
    pub alignment: Option<Seq<char>>,
}

impl View for SegmentSequenceProperties {
    type V = SegmentSequencePropertiesV;

    open spec fn view(&self) -> SegmentSequencePropertiesV {
        SegmentSequencePropertiesV {
            cadence: self.cadence,
            sap_type: self.sap_type,
            event: self.event,
            alignment: opt_view(self.alignment),
        }
    }
}

} // verus!
