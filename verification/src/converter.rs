//! The converter: it owns the classified image, the clusters found in it, a
//! counter, and the document, and takes the clusters one at a time.
//!
//! Fitting an outline to a cluster is floating-point work that the host does.
//! So a step is taken in two halves: [`BinaryImageConverter::pending`] names
//! the cluster whose outline the step needs, if it needs one, and
//! [`BinaryImageConverter::tick`] takes that outline and does the rest.

use visioncortex::clusters::Cluster;
use visioncortex::clusters::Clusters;
use visioncortex::BinaryImage;
use vstd::prelude::*;

use crate::clusters::{
    cluster_pixels, cluster_points, cluster_sizes, clusterable, connected_regions, fits,
    to_clusters,
};
use crate::color::{black, Color};
use crate::image::{
    classified, image_height, image_pixels, image_width, to_binary_image, RawImageData,
};
use crate::mode::{mode_named, path_simplify_mode, PathSimplifyMode};
use crate::state::{ConversionState, StateModel};
use crate::svg::{chars_of, OptionsModel, PathData, PathModel, Svg, SvgModel, SvgOptions};

verus! {

/// What the converter is told about the conversion itself.
pub struct BinaryImageConverterParams {
    /// `polygon`, `spline` or `none`.
    pub mode: String,
    /// The least number of pixels of a cluster that is drawn. Smaller ones are
    /// speckles and are left out.
    pub filterSpeckle: usize,
}

/// Whether a cluster of `size` pixels is drawn under the threshold `filter`:
/// it is, unless it has fewer pixels than the threshold asks for.
pub open spec fn is_drawn(size: nat, filter: nat) -> bool {
    size >= filter
}

impl BinaryImageConverterParams {
    /// Whether a cluster of `size` pixels is drawn, or left out as a speckle.
    pub fn retains(&self, size: usize) -> (drawn: bool)
        ensures
            drawn == is_drawn(size as nat, self.filterSpeckle as nat),
    {
        size >= self.filterSpeckle
    }
}

/// What the converter is told about the picture and the document.
pub struct Options {
    /// Take the light pixels for foreground. Off when absent.
    pub invert: Option<bool>,
    /// See [`SvgOptions::pathFill`].
    pub pathFill: Option<String>,
    /// See [`SvgOptions::backgroundColor`].
    pub backgroundColor: Option<String>,
    /// See [`SvgOptions::attributes`].
    pub attributes: Option<String>,
    /// See [`SvgOptions::scale`].
    pub scale: Option<String>,
}

impl View for Options {
    type V = OptionsModel;

    open spec fn view(&self) -> OptionsModel {
        OptionsModel {
            scale: chars_of(self.scale),
            background: chars_of(self.backgroundColor),
            fill: chars_of(self.pathFill),
            attributes: chars_of(self.attributes),
        }
    }
}

/// Why no converter was made.
#[derive(Clone, Copy, Debug, PartialEq, Eq, Structural)]
pub enum ConverterError {
    /// The mode is none of `polygon`, `spline`, `none`.
    UnknownMode,
    /// The picture has a side longer than `i32::MAX` or more than `u32::MAX`
    /// pixels.
    ImageTooLarge,
    /// The buffer holds fewer than four bytes for each pixel.
    DataTooShort,
}

/// Why a step was not taken.
#[derive(Clone, Copy, Debug, PartialEq, Eq, Structural)]
pub enum StepError {
    /// The clusters have not been looked for yet.
    NotInitialized,
    /// The cluster at hand is to be drawn, and no outline came with the call.
    OutlineMissing,
}

/// The converter as mathematics.
pub struct ConverterModel {
    pub width: nat,
    pub height: nat,
    /// The classified picture, row by row.
    pub pixels: Seq<bool>,
    pub mode: PathSimplifyMode,
    /// The speckle threshold.
    pub filter: nat,
    /// The pixels of each cluster; `None` until the clusters are looked for.
    pub regions: Option<Seq<Seq<(int, int)>>>,
    /// The number of clusters that have been taken.
    pub counter: nat,
    pub svg: SvgModel,
}

/// The characters of an optional outline.
pub open spec fn outline_model(outline: Option<PathData>) -> Option<PathModel> {
    match outline {
        Some(path) => Some(path@),
        None => None,
    }
}

/// Whether a picture has no foreground pixel.
pub open spec fn all_background(pixels: Seq<bool>) -> bool {
    forall|i: int| 0 <= i < pixels.len() ==> !pixels[i]
}

/// What construction makes of its arguments: the converter, or the reason
/// why there is none. The mode is looked at first, then the size of the
/// picture, then the length of the buffer.
pub open spec fn constructed(
    data: Seq<u8>,
    width: nat,
    height: nat,
    mode: Seq<char>,
    filter: nat,
    invert: Option<bool>,
    options: OptionsModel,
) -> Result<ConverterModel, ConverterError> {
    if mode_named(mode) is None {
        Err(ConverterError::UnknownMode)
    } else if !fits(width, height) {
        Err(ConverterError::ImageTooLarge)
    } else if data.len() < 4 * (width * height) {
        Err(ConverterError::DataTooShort)
    } else {
        Ok(
            ConverterModel {
                width,
                height,
                pixels: classified(data, width, height, invert == Some(true)),
                mode: mode_named(mode)->0,
                filter,
                regions: None,
                counter: 0,
                svg: SvgModel::empty(options),
            },
        )
    }
}

impl ConverterModel {
    /// What holds of every converter: the picture has a pixel for each place
    /// and is not too large, and no more clusters are taken than there are.
    pub open spec fn well_formed(self) -> bool {
        &&& self.pixels.len() == self.width * self.height
        &&& fits(self.width, self.height)
        &&& self.state().well_formed()
    }

    /// The counter and what it counts to.
    pub open spec fn state(self) -> StateModel {
        StateModel { counter: self.counter, total: self.total() }
    }

    /// The pixel count of each cluster, in the order in which they are
    /// taken. Empty until the clusters are looked for.
    pub open spec fn sizes(self) -> Seq<nat> {
        match self.regions {
            Some(regions) => cluster_sizes(regions),
            None => Seq::empty(),
        }
    }

    /// The number of clusters.
    pub open spec fn total(self) -> nat {
        self.sizes().len()
    }

    /// Whether every cluster has been taken.
    pub open spec fn done(self) -> bool {
        self.regions is Some && self.state().done()
    }

    /// Whether the cluster at `index` is drawn: it is, when it is no speckle.
    pub open spec fn retains(self, index: int) -> bool {
        is_drawn(self.sizes()[index], self.filter)
    }

    /// Whether the next step needs an outline: there is a cluster at hand,
    /// and it is drawn.
    pub open spec fn wants_outline(self) -> bool {
        self.regions is Some && self.counter < self.total() && self.retains(self.counter as int)
    }

    /// The converter once the clusters have been looked for.
    pub open spec fn initialized(self) -> ConverterModel {
        ConverterModel {
            regions: Some(connected_regions(self.width, self.height, self.pixels)),
            counter: 0,
            ..self
        }
    }

    /// What a step answers.
    pub open spec fn step_result(self, outline: Option<PathModel>) -> Result<bool, StepError> {
        if self.regions is None {
            Err(StepError::NotInitialized)
        } else if self.state().done() {
            Ok(true)
        } else if self.retains(self.counter as int) && outline is None {
            Err(StepError::OutlineMissing)
        } else {
            Ok(self.state().advanced().done())
        }
    }

    /// What a step leaves behind. A step that fails, and a step on a
    /// converter that is done, leave it as it was. Any other step takes one
    /// cluster: if the cluster is drawn, its outline joins the document, in
    /// black unless the options name a fill; if it is a speckle, an outline
    /// that came with the call is dropped.
    pub open spec fn step(self, outline: Option<PathModel>) -> ConverterModel {
        if self.step_result(outline) is Err || self.state().done() {
            self
        } else if self.retains(self.counter as int) {
            ConverterModel {
                counter: self.state().advanced().counter,
                svg: self.svg.with_path(outline->0, black()),
                ..self
            }
        } else {
            ConverterModel { counter: self.state().advanced().counter, ..self }
        }
    }

    /// The share of the clusters that have been taken, in percent, rounded
    /// down. Before the clusters are looked for it is 0; where there is no
    /// cluster at all, the work is done and it is 100.
    pub open spec fn progress(self) -> nat {
        if self.regions is None {
            0
        } else {
            self.state().percent()
        }
    }
}

/// The picture, its clusters once they are known, and how many of them have
/// been taken.
struct Walk {
    image: BinaryImage,
    clusters: Option<Clusters>,
    state: ConversionState,
}

impl Walk {
    #[verifier::type_invariant]
    spec fn inv(self) -> bool {
        &&& clusterable(self.image)
        &&& self.state@.well_formed()
        &&& match self.clusters {
            Some(clusters) => {
                &&& cluster_points(clusters) == connected_regions(
                    image_width(self.image),
                    image_height(self.image),
                    image_pixels(self.image),
                )
                &&& self.state@.total == cluster_points(clusters).len()
            },
            None => self.state@.counter == 0,
        }
    }

    spec fn regions(self) -> Option<Seq<Seq<(int, int)>>> {
        match self.clusters {
            Some(clusters) => Some(cluster_points(clusters)),
            None => None,
        }
    }

    fn new(image: BinaryImage) -> (walk: Walk)
        requires
            clusterable(image),
        ensures
            walk.image == image,
            walk.clusters is None,
            walk.state@.counter == 0,
    {
        Walk { image, clusters: None, state: ConversionState::new(0) }
    }

    fn restart(&mut self)
        ensures
            final(self).image == old(self).image,
            final(self).regions() == Some(
                connected_regions(
                    image_width(old(self).image),
                    image_height(old(self).image),
                    image_pixels(old(self).image),
                ),
            ),
            final(self).state@.counter == 0,
            all_background(image_pixels(old(self).image)) ==> final(self).regions()->0.len() == 0,
    {
        proof {
            use_type_invariant(&*self);
        }
        let clusters = to_clusters(&self.image);
        self.state = ConversionState::new(clusters.len());
        self.clusters = Some(clusters);
    }
}

/// Turns a raster picture, cluster by cluster, into a document of paths.
pub struct BinaryImageConverter {
    walk: Walk,
    mode: PathSimplifyMode,
    converterOptions: BinaryImageConverterParams,
    svg: Svg,
}

impl View for BinaryImageConverter {
    type V = ConverterModel;

    closed spec fn view(&self) -> ConverterModel {
        ConverterModel {
            width: image_width(self.walk.image),
            height: image_height(self.walk.image),
            pixels: image_pixels(self.walk.image),
            mode: self.mode,
            filter: self.converterOptions.filterSpeckle as nat,
            regions: self.walk.regions(),
            counter: self.walk.state@.counter,
            svg: self.svg@,
        }
    }
}

/// What construction gave, as mathematics.
pub open spec fn outcome(made: Result<BinaryImageConverter, ConverterError>) -> Result<
    ConverterModel,
    ConverterError,
> {
    match made {
        Ok(converter) => Ok(converter@),
        Err(error) => Err(error),
    }
}

impl BinaryImageConverter {
    /// Classifies the picture and sets up an empty document. The clusters
    /// are not looked for yet: that is [`Self::init`].
    pub fn new(
        imageData: RawImageData,
        converterOptions: BinaryImageConverterParams,
        options: Options,
    ) -> (made: Result<BinaryImageConverter, ConverterError>)
        ensures
            outcome(made) == constructed(
                imageData.data@,
                imageData.width as nat,
                imageData.height as nat,
                converterOptions.mode@,
                converterOptions.filterSpeckle as nat,
                options.invert,
                options@,
            ),
            made is Ok ==> made->Ok_0@.well_formed(),
    {
        let mode = match path_simplify_mode(converterOptions.mode.as_str()) {
            Ok(mode) => mode,
            Err(_) => {
                return Err(ConverterError::UnknownMode);
            },
        };
        let width: usize = imageData.width;
        let height: usize = imageData.height;
        if width as u64 > i32::MAX as u64 || height as u64 > i32::MAX as u64 {
            return Err(ConverterError::ImageTooLarge);
        }
        let pixels: usize = match width.checked_mul(height) {
            Some(pixels) => pixels,
            None => {
                return Err(ConverterError::ImageTooLarge);
            },
        };
        if pixels as u64 > u32::MAX as u64 {
            return Err(ConverterError::ImageTooLarge);
        }
        if imageData.data.len() / 4 < pixels {
            return Err(ConverterError::DataTooShort);
        }
        let invert = match options.invert {
            Some(invert) => invert,
            None => false,
        };
        let image = to_binary_image(imageData.data, width, height, invert);
        let svg = Svg::new(
            SvgOptions {
                scale: options.scale,
                backgroundColor: options.backgroundColor,
                pathFill: options.pathFill,
                attributes: options.attributes,
            },
        );
        Ok(BinaryImageConverter { walk: Walk::new(image), mode, converterOptions, svg })
    }

    /// Looks for the clusters, all of them at once, and starts counting from
    /// the first. The document is left as it is.
    pub fn init(&mut self)
        ensures
            final(self)@ == old(self)@.initialized(),
            final(self)@.well_formed(),
            all_background(old(self)@.pixels) ==> final(self)@.total() == 0,
    {
        proof {
            use_type_invariant(&self.walk);
        }
        self.walk.restart();
    }

    /// The clusters, once they have been looked for.
    pub fn clusters(&self) -> (clusters: Option<&Clusters>)
        ensures
            match clusters {
                Some(clusters) => self@.regions == Some(cluster_points(*clusters)),
                None => self@.regions is None,
            },
            self@.well_formed(),
    {
        proof {
            use_type_invariant(&self.walk);
        }
        self.walk.clusters.as_ref()
    }

    /// The cluster whose outline the next step needs, if it needs one: the
    /// cluster at hand, unless it is a speckle.
    pub fn pending(&self) -> (cluster: Option<&Cluster>)
        ensures
            cluster is Some <==> self@.wants_outline(),
            cluster is Some ==> cluster_pixels(*cluster->0)
                == self@.regions->0[self@.counter as int],
            self@.well_formed(),
    {
        proof {
            use_type_invariant(&self.walk);
        }
        match &self.walk.clusters {
            Some(clusters) => {
                if !self.walk.state.done() {
                    let cluster = clusters.get_cluster(self.walk.state.counter());
                    if self.converterOptions.retains(cluster.size()) {
                        Some(cluster)
                    } else {
                        None
                    }
                } else {
                    None
                }
            },
            None => None,
        }
    }

    /// Takes one step: one cluster, if there is one left. The answer is
    /// whether the converter is done after the step.
    pub fn tick(&mut self, outline: Option<PathData>) -> (done: Result<bool, StepError>)
        ensures
            done == old(self)@.step_result(outline_model(outline)),
            final(self)@ == old(self)@.step(outline_model(outline)),
            final(self)@.well_formed(),
    {
        proof {
            use_type_invariant(&self.walk);
        }
        let size: usize = match &self.walk.clusters {
            Some(clusters) => {
                if self.walk.state.done() {
                    return Ok(true);
                }
                clusters.get_cluster(self.walk.state.counter()).size()
            },
            None => {
                return Err(StepError::NotInitialized);
            },
        };
        if self.converterOptions.retains(size) {
            match outline {
                Some(path) => {
                    let black = Color::black();
                    self.svg.add_path(&path, &black);
                },
                None => {
                    return Err(StepError::OutlineMissing);
                },
            }
        }
        Ok(self.walk.state.advance())
    }

    /// The document as it stands. It is whole once the converter is done,
    /// and a document of the paths so far before that.
    pub fn getResult(&self) -> (text: String)
        ensures
            text@ == self@.svg.document(),
            self@.well_formed(),
    {
        proof {
            use_type_invariant(&self.walk);
        }
        self.svg.get_svg_string()
    }

    /// See [`ConverterModel::progress`].
    pub fn progress(&self) -> (percent: u32)
        ensures
            percent == self@.progress(),
            percent <= 100,
            self@.well_formed(),
    {
        proof {
            use_type_invariant(&self.walk);
        }
        match &self.walk.clusters {
            Some(_) => self.walk.state.progress(),
            None => 0,
        }
    }

    /// The simplification that the outlines are to be fitted with.
    pub fn mode(&self) -> (mode: PathSimplifyMode)
        ensures
            mode == self@.mode,
            self@.well_formed(),
    {
        proof {
            use_type_invariant(&self.walk);
        }
        self.mode
    }
}

} // verus!
