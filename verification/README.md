# synthetic_data_generator_for_yolo

Generates synthetic training data for YOLO oriented-bounding-box (OBB) detectors:
backgrounds with pasted objects and distractions, one label file per image, and the
dataset's directory tree and `dataset.yaml`.

- `src/` is the verified library (Verus): the dataset layout, the directory-structure,
  description (`dataset.yaml`, with its class `names`) and label writers, the choice of
  backgrounds, objects and distractions for each image, stated in terms of the listings
  and sizes the file system answers, the split of the recipes into train/val/test and
  into per-thread pools, the paste order of an image, and the decimal formatting they
  share. Disk access goes through the `FileSystem` trait, whose implementations live
  outside the library.
- Object images sit in one sub-folder per class, with any names; the class id of an
  object is the position of its folder in the listing of the object directory, and
  `dataset.yaml` names each class after its folder. Label lines hold the class id and
  the eight corner coordinates normalized to the image size.
- `app/` is the command-line program: argument parsing, the real file system, image
  drawing with `image`/`imageproc`, the floating-point geometry (element sizes and
  angles, corner computation and normalization), and the multi-threaded, asynchronous orchestration.
- `tests/` runs the library with in-memory file systems.
