use vstd::prelude::*;
use crate::scalar::Scalar;
use crate::vector::Vector3;

verus! {

/// Bit pattern of 180, the bound of the vertical field of view in degrees.
pub const HALF_TURN_BITS: u32 = 0x4334_0000;

/// Why a camera cannot be made.
#[derive(Clone, Copy, Debug, PartialEq, Eq, Structural)]
pub enum ConfigError {
    /// The image has no rows.
    ZeroHeight,
    /// The image has no columns.
    ZeroWidth,
    /// The vertical field of view is not strictly between 0 and 180
    /// degrees.
    FieldOfView,
}

/// The image plane as seen from the camera: its lower left corner and the
/// two vectors that span it.
#[derive(Clone, Copy, Debug, PartialEq, Eq, Structural)]
pub struct ImagePlane {
    pub lower_left_corner: Vector3,
    pub horizontal: Vector3,
    pub vertical: Vector3,
}

#[derive(Clone, Copy, Debug, PartialEq, Eq, Structural)]
pub struct Camera {
    pub origin: Vector3,
    pub lower_left_corner: Vector3,
    pub horizontal: Vector3,
    pub vertical: Vector3,
    pub width: u32,
    pub height: u32,
}

/// The field of view is a number strictly between 0 and 180.
pub open spec fn fov_in_range(fov: Scalar) -> bool {
    (Scalar { bits: 0 }).below(fov) && fov.below(Scalar { bits: HALF_TURN_BITS })
}

/// What is wrong with a field of view and the size of an image, if
/// anything.  A missing height is reported before a missing width, and that
/// before a bad field of view.
pub open spec fn config_fault(fov: Scalar, width: u32, height: u32) -> Option<ConfigError> {
    if height == 0 {
        Some(ConfigError::ZeroHeight)
    } else if width == 0 {
        Some(ConfigError::ZeroWidth)
    } else if !fov_in_range(fov) {
        Some(ConfigError::FieldOfView)
    } else {
        None
    }
}

/// Tells whether a camera can be made with this field of view, in degrees,
/// for an image of this size.
pub fn check_config(fov: Scalar, width: u32, height: u32) -> (r: Result<(), ConfigError>)
    ensures
        r == match config_fault(fov, width, height) {
            Some(fault) => Err::<(), ConfigError>(fault),
            None => Ok(()),
        },
{
    if height == 0 {
        Err(ConfigError::ZeroHeight)
    } else if width == 0 {
        Err(ConfigError::ZeroWidth)
    } else if !(fov.gt(Scalar::zero()) && fov.lt(Scalar::from_bits(HALF_TURN_BITS))) {
        Err(ConfigError::FieldOfView)
    } else {
        Ok(())
    }
}

impl Camera {
    /// The camera at `camera_pos` that looks at `plane`, for an image of
    /// `width` by `height` pixels, or the fault in its configuration.
    pub fn new(
        camera_pos: Vector3,
        camera_fov: Scalar,
        width: u32,
        height: u32,
        plane: ImagePlane,
    ) -> (r: Result<Camera, ConfigError>)
        ensures
            r == match config_fault(camera_fov, width, height) {
                Some(fault) => Err::<Camera, ConfigError>(fault),
                None => Ok(
                    Camera {
                        origin: camera_pos,
                        lower_left_corner: plane.lower_left_corner,
                        horizontal: plane.horizontal,
                        vertical: plane.vertical,
                        width,
                        height,
                    },
                ),
            },
    {
        match check_config(camera_fov, width, height) {
            Err(fault) => Err(fault),
            Ok(()) => Ok(
                Camera {
                    origin: camera_pos,
                    lower_left_corner: plane.lower_left_corner,
                    horizontal: plane.horizontal,
                    vertical: plane.vertical,
                    width,
                    height,
                },
            ),
        }
    }
}

/// A camera is made exactly where the image has rows and columns and the
/// field of view is a number above 0 and below 180.
pub proof fn lemma_camera_is_valid(fov: Scalar, width: u32, height: u32)
    ensures
        config_fault(fov, width, height) is None <==> height > 0 && width > 0 && fov_in_range(
            fov,
        ),
        fov.nan() ==> config_fault(fov, width, height) is Some,
{
}

} // verus!
