//! The clusters of a binary image: the connected groups of foreground pixels,
//! found by visioncortex and kept in its own collection.

use visioncortex::clusters::Cluster;
use visioncortex::clusters::Clusters;
use visioncortex::BinaryImage;
use vstd::prelude::*;

use crate::image::{image_height, image_pixels, image_width};

verus! {

/// `Clusters` of visioncortex: a value that is carried, never looked into.
#[verifier::external_type_specification]
#[verifier::external_body]
pub struct ExClusters(visioncortex::clusters::Clusters);

/// `Cluster` of visioncortex: a value that is carried, never looked into.
#[verifier::external_type_specification]
#[verifier::external_body]
pub struct ExCluster(visioncortex::clusters::Cluster);

/// What a cluster holds: the coordinates `(x, y)` of its pixels.
pub uninterp spec fn cluster_pixels(cluster: Cluster) -> Seq<(int, int)>;

/// What a cluster set holds: for each cluster, in the set's order, the
/// coordinates `(x, y)` of its pixels.
pub uninterp spec fn cluster_points(clusters: Clusters) -> Seq<Seq<(int, int)>>;

/// The clusters that visioncortex finds in an image of the given size and
/// pixels, where pixels that share an edge belong together and pixels that
/// only touch at a corner do not.
pub uninterp spec fn connected_regions(width: nat, height: nat, pixels: Seq<bool>) -> Seq<
    Seq<(int, int)>,
>;

/// The pixel count of each cluster, in the set's order.
pub open spec fn cluster_sizes(points: Seq<Seq<(int, int)>>) -> Seq<nat> {
    Seq::new(points.len(), |i: int| points[i].len())
}

/// Whether a picture of this size can be clustered. The scan counts columns
/// and rows in `i32` and steps one below and one above each of them, so
/// neither side may pass `i32::MAX`; and it labels clusters in `u32`, so the
/// picture may not have more than `u32::MAX` places.
pub open spec fn fits(width: nat, height: nat) -> bool {
    &&& width <= i32::MAX
    &&& height <= i32::MAX
    &&& width * height <= u32::MAX
}

/// Whether an image is one that can be clustered: it holds one pixel for each
/// place, and its size is one that fits.
pub open spec fn clusterable(image: BinaryImage) -> bool {
    &&& image_pixels(image).len() == image_width(image) * image_height(image)
    &&& fits(image_width(image), image_height(image))
}

/// Calls `BinaryImage::to_clusters` of visioncortex, without diagonal
/// connectivity. The result is a function of the image alone: one scan from
/// the top left, no hashing, no randomness. A cluster is only ever started at
/// a foreground pixel, so an image without one has no cluster. The function
/// panics for an image of more than `u32::MAX` pixels. It also casts each
/// column and row to `i32` and subtracts 1 from it, and adds 1 to it where
/// the pixel is foreground, which overflows for a side longer than
/// `i32::MAX`, and it reads every pixel of such an image as background. The
/// precondition rules all of these out.
#[verifier::external_body]
pub(crate) fn to_clusters(image: &BinaryImage) -> (clusters: Clusters)
    requires
        clusterable(*image),
    ensures
        cluster_points(clusters) == connected_regions(
            image_width(*image),
            image_height(*image),
            image_pixels(*image),
        ),
        (forall|i: int| 0 <= i < image_pixels(*image).len() ==> !image_pixels(*image)[i])
            ==> cluster_points(clusters).len() == 0,
{
    image.to_clusters(false)
}

/// `Clusters::len` of visioncortex is the number of clusters in the set.
pub assume_specification[ Clusters::len ](clusters: &Clusters) -> (n: usize)
    ensures
        n == cluster_points(*clusters).len(),
;

/// `Clusters::get_cluster` of visioncortex is the cluster at `index`. It
/// indexes the set and panics past its end, which the precondition rules out.
pub assume_specification<'a>[ Clusters::get_cluster ](
    clusters: &'a Clusters,
    index: usize,
) -> (cluster: &'a Cluster)
    requires
        index < cluster_points(*clusters).len(),
    ensures
        cluster_pixels(*cluster) == cluster_points(*clusters)[index as int],
;

/// `Cluster::size` of visioncortex is the number of pixels of the cluster.
pub assume_specification[ Cluster::size ](cluster: &Cluster) -> (n: usize)
    ensures
        n == cluster_pixels(*cluster).len(),
;

} // verus!
