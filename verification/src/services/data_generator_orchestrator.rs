use crate::models::dataset_config::{
    images_test_dir, images_train_dir, images_val_dir, labels_test_dir, labels_train_dir,
    labels_val_dir, DatasetConfig,
};
use crate::services::dataset_directory_structure_generator::structure_directories;
use crate::services::image_generator::image_file_path;
use crate::services::label_generator::label_file_path;
use vstd::prelude::*;
use vstd::string::*;

verus! {

/// The split of the dataset an image belongs to.
#[derive(PartialEq, Eq, Structural, Hash, Debug, Clone, Copy)]
pub enum DataType {
    TRAIN,
    VAL,
    TEST,
}

/// Progress reported while a dataset is generated.
#[derive(Debug, Clone, Copy)]
pub enum GenerateImagesProgress {
    Started { total: u32 },
    RecipesGenerated { total: u32 },
    Generating { count: u32, total: u32 },
    Completed { total: u32 },
}

/// Why a generation request is refused, if it is: no images, no threads, or more
/// threads than images (the thread count is read as a `u32`).
pub open spec fn request_error(count: u32, thread_count: usize) -> Option<Seq<char>> {
    if count == 0 {
        Some("Count must be greater than 0"@)
    } else if thread_count == 0 {
        Some("Thread count must be greater than 0"@)
    } else if (thread_count as u32) > count {
        Some("Thread count must be less than or equal to the total number of images"@)
    } else {
        None
    }
}

/// Checks a request for `count` images generated by `thread_count` threads.
pub fn check_generation_request(count: u32, thread_count: usize) -> (result: Result<(), String>)
    ensures
        request_error(count, thread_count) is None ==> result is Ok,
        request_error(count, thread_count) matches Some(m) ==> result matches Err(e) && e@ == m,
{
    if count == 0 {
        return Err(String::from_str("Count must be greater than 0"));
    }
    if thread_count == 0 {
        return Err(String::from_str("Thread count must be greater than 0"));
    }
    if (thread_count as u32) > count {
        return Err(String::from_str("Thread count must be less than or equal to the total number of images"));
    }
    Ok(())
}

/// The recipes a generation goes on with, given what the recipe generator answered:
/// the recipes, or its error prefixed with what failed.
pub fn recipes_outcome<T>(generated: Result<Vec<T>, String>) -> (result: Result<Vec<T>, String>)
    ensures
        generated matches Ok(recipes) ==> (result matches Ok(r) && r@ == recipes@),
        generated matches Err(e) ==> (result matches Err(m) && m@ == "Failed to generate image recipes: "@ + e@),
{
    match generated {
        Ok(recipes) => Ok(recipes),
        Err(e) => Err(String::from_str("Failed to generate image recipes: ").concat(e.as_str())),
    }
}

/// The message of a split that leaves a subset empty.
pub open spec fn split_error() -> Seq<char> {
    "Failed to split recipes, some of subsets are empty. Maybe dataset is too small ?"@
}

/// A split into `train_size` training items, `val_size` validation items and the
/// rest for testing succeeds exactly when none of the three subsets is empty.
pub open spec fn split_succeeds(len: int, train_size: int, val_size: int) -> bool {
    train_size > 0 && val_size > 0 && train_size + val_size < len
}

/// The split an item at position `i` of the recipes falls into.
pub open spec fn datatype_at(i: int, train_size: int, val_size: int) -> DataType {
    if i < train_size {
        DataType::TRAIN
    } else if i < train_size + val_size {
        DataType::VAL
    } else {
        DataType::TEST
    }
}

/// Splits `recipes`, in order, into a training, a validation and a test subset of
/// `train_size`, `val_size` and the remaining items.
pub fn split_recipes<T>(recipes: Vec<T>, train_size: usize, val_size: usize) -> (result: Result<
    (Vec<T>, Vec<T>, Vec<T>),
    String,
>)
    requires
        train_size <= recipes@.len(),
        val_size <= recipes@.len() - train_size,
    ensures
        result is Ok <==> split_succeeds(recipes@.len() as int, train_size as int, val_size as int),
        result matches Ok((train, val, test)) ==> {
            &&& train@ == recipes@.subrange(0, train_size as int)
            &&& val@ == recipes@.subrange(train_size as int, train_size + val_size)
            &&& test@ == recipes@.subrange(train_size + val_size, recipes@.len() as int)
        },
        result matches Err(m) ==> m@ == split_error(),
{
    let ghost all = recipes@;
    let mut train = recipes;
    let mut val = train.split_off(train_size);
    let test = val.split_off(val_size);
    if train.len() == 0 || val.len() == 0 || test.len() == 0 {
        Err(String::from_str("Failed to split recipes, some of subsets are empty. Maybe dataset is too small ?"))
    } else {
        assert(val@ == all.subrange(train_size as int, train_size + val_size));
        Ok((train, val, test))
    }
}

/// The items of `items`, in order, each tagged with `datatype`.
pub open spec fn tagged<T>(items: Seq<T>, datatype: DataType) -> Seq<(T, DataType)> {
    items.map_values(|item: T| (item, datatype))
}

/// The pool built from a split is the training items tagged `TRAIN`, then the
/// validation items tagged `VAL`, then the test items tagged `TEST`; without its tags
/// it is the recipes themselves, in the same order.
pub proof fn lemma_pool_is_the_tagged_split<T>(
    recipes: Seq<T>,
    train_size: int,
    val_size: int,
    pool: Seq<(T, DataType)>,
)
    requires
        0 <= train_size <= recipes.len(),
        0 <= val_size <= recipes.len() - train_size,
        pool.len() == recipes.len(),
        forall|i: int| 0 <= i < recipes.len() ==> #[trigger] pool[i] == (recipes[i], datatype_at(i, train_size, val_size)),
    ensures
        pool == tagged(recipes.subrange(0, train_size), DataType::TRAIN) + tagged(
            recipes.subrange(train_size, train_size + val_size),
            DataType::VAL,
        ) + tagged(recipes.subrange(train_size + val_size, recipes.len() as int), DataType::TEST),
        pool.map_values(|p: (T, DataType)| p.0) == recipes,
{
    let whole = tagged(recipes.subrange(0, train_size), DataType::TRAIN) + tagged(
        recipes.subrange(train_size, train_size + val_size),
        DataType::VAL,
    ) + tagged(recipes.subrange(train_size + val_size, recipes.len() as int), DataType::TEST);
    assert forall|i: int| 0 <= i < pool.len() implies #[trigger] whole[i] == pool[i] by {
        assert(pool[i] == (recipes[i], datatype_at(i, train_size, val_size)));
    }
    assert(whole =~= pool);
    let items = pool.map_values(|p: (T, DataType)| p.0);
    assert forall|i: int| 0 <= i < recipes.len() implies #[trigger] items[i] == recipes[i] by {
        assert(pool[i] == (recipes[i], datatype_at(i, train_size, val_size)));
    }
    assert(items =~= recipes);
}

/// Appends every item of `items`, in order, to `pool`, tagged with `datatype`.
fn tag_into<T>(pool: &mut Vec<(T, DataType)>, items: Vec<T>, datatype: DataType)
    ensures
        final(pool)@.len() == old(pool)@.len() + items@.len(),
        forall|i: int| 0 <= i < old(pool)@.len() ==> #[trigger] final(pool)@[i] == old(pool)@[i],
        forall|i: int|
            0 <= i < items@.len() ==> #[trigger] final(pool)@[old(pool)@.len() + i] == (items@[i], datatype),
{
    let ghost start = pool@;
    let ghost src = items@;
    for item in it: items.into_iter()
        invariant
            src == it.seq(),
            pool@.len() == start.len() + it.index(),
            forall|i: int| 0 <= i < start.len() ==> #[trigger] pool@[i] == start[i],
            forall|i: int| 0 <= i < it.index() ==> #[trigger] pool@[start.len() + i] == (src[i], datatype),
    {
        pool.push((item, datatype));
    }
}

/// The recipes tagged with their split, in order: the training items, then the
/// validation items, then the test items.
pub fn build_pool_of_recipes<T>(recipes: Vec<T>, train_size: usize, val_size: usize) -> (result: Result<
    Vec<(T, DataType)>,
    String,
>)
    requires
        train_size <= recipes@.len(),
        val_size <= recipes@.len() - train_size,
    ensures
        result is Ok <==> split_succeeds(recipes@.len() as int, train_size as int, val_size as int),
        result matches Ok(pool) ==> {
            &&& pool@.len() == recipes@.len()
            &&& forall|i: int|
                0 <= i < recipes@.len() ==> #[trigger] pool@[i] == (
                    recipes@[i],
                    datatype_at(i, train_size as int, val_size as int),
                )
        },
        result matches Err(m) ==> m@ == split_error(),
{
    let ghost all = recipes@;
    match split_recipes(recipes, train_size, val_size) {
        Err(m) => Err(m),
        Ok((train, val, test)) => {
            let ghost (t, v, c) = (train@, val@, test@);
            let mut pool: Vec<(T, DataType)> = Vec::new();
            tag_into(&mut pool, train, DataType::TRAIN);
            let ghost p1 = pool@;
            tag_into(&mut pool, val, DataType::VAL);
            let ghost p2 = pool@;
            tag_into(&mut pool, test, DataType::TEST);
            assert forall|i: int| 0 <= i < all.len() implies #[trigger] pool@[i] == (
                all[i],
                datatype_at(i, train_size as int, val_size as int),
            ) by {
                if i < train_size {
                    assert(p1[0 + i] == (t[i], DataType::TRAIN));
                    assert(p2[i] == p1[i]);
                    assert(pool@[i] == p2[i]);
                    assert(t[i] == all[i]);
                } else if i < train_size + val_size {
                    let j = i - train_size;
                    assert(p2[t.len() + j] == (v[j], DataType::VAL));
                    assert(pool@[i] == p2[i]);
                    assert(v[j] == all[i]);
                } else {
                    let j = i - train_size - val_size;
                    assert(pool@[(t.len() + v.len()) + j] == (c[j], DataType::TEST));
                    assert(c[j] == all[i]);
                }
            }
            proof {
                lemma_pool_is_the_tagged_split(all, train_size as int, val_size as int, pool@);
            }
            Ok(pool)
        },
    }
}

/// The number of items each thread receives: the pool length divided by the thread
/// count, rounded up.
pub open spec fn chunk_size(len: int, thread_count: int) -> int {
    (len + thread_count - 1) / thread_count
}

/// The contents of each sub-pool.
pub open spec fn chunk_views<T>(chunks: Seq<Vec<T>>) -> Seq<Seq<T>> {
    chunks.map_values(|c: Vec<T>| c@)
}

proof fn lemma_chunk_size(len: int, thread_count: int)
    requires
        len > 0,
        thread_count > 0,
    ensures
        chunk_size(len, thread_count) >= 1,
        chunk_size(len, thread_count) * thread_count >= len,
        chunk_size(len, thread_count) <= len,
{
    let cs = chunk_size(len, thread_count);
    let a = len + thread_count - 1;
    assert(a == cs * thread_count + a % thread_count && 0 <= a % thread_count < thread_count) by (nonlinear_arith)
        requires
            thread_count > 0,
            cs == a / thread_count,
    ;
    assert(cs >= 1) by (nonlinear_arith)
        requires
            a == cs * thread_count + a % thread_count,
            a % thread_count < thread_count,
            a >= thread_count,
            thread_count > 0,
    ;
    assert(cs <= len) by (nonlinear_arith)
        requires
            a == cs * thread_count + a % thread_count,
            a % thread_count >= 0,
            a == len + thread_count - 1,
            thread_count > 0,
            len > 0,
    ;
}

proof fn lemma_chunk_count(count: int, cs: int, thread_count: int, len: int)
    requires
        count >= 1,
        cs >= 1,
        (count - 1) * cs < len,
        len <= cs * thread_count,
    ensures
        count <= thread_count,
{
    assert(count <= thread_count) by (nonlinear_arith)
        requires
            count >= 1,
            cs >= 1,
            (count - 1) * cs < len,
            len <= cs * thread_count,
    ;
}

/// Splits the pool, in order, into consecutive sub-pools of `chunk_size` items (the
/// last one possibly shorter), one per thread at most.
pub fn split_pool_for_threads<T>(pool: Vec<T>, thread_count: usize) -> (subpools: Vec<Vec<T>>)
    requires
        pool@.len() > 0,
        thread_count > 0,
        pool@.len() + thread_count - 1 <= usize::MAX,
    ensures
        ({
            let cs = chunk_size(pool@.len() as int, thread_count as int);
            let n = subpools@.len() as int;
            &&& 1 <= n <= thread_count
            &&& (n - 1) * cs < pool@.len() <= n * cs
            &&& forall|k: int|
                0 <= k < n ==> (#[trigger] subpools@[k])@ == pool@.subrange(
                    k * cs,
                    if (k + 1) * cs < pool@.len() { (k + 1) * cs } else { pool@.len() as int },
                )
        }),
        chunk_views(subpools@).flatten() == pool@,
{
    let ghost all = pool@;
    let ghost len = pool@.len() as int;
    let cs = (pool.len() + (thread_count - 1)) / thread_count;
    proof {
        lemma_chunk_size(len, thread_count as int);
    }
    let mut chunks: Vec<Vec<T>> = Vec::new();
    let mut rest = pool;
    let ghost mut start: int = 0;
    assert(chunks@.len() * cs == 0) by (nonlinear_arith)
        requires
            chunks@.len() == 0,
    ;
    loop
        invariant_except_break
            cs == chunk_size(len, thread_count as int),
            cs >= 1,
            cs * thread_count >= len,
            len == all.len(),
            0 <= start < len,
            start == chunks@.len() * cs,
            rest@ == all.subrange(start, len),
            forall|k: int|
                0 <= k < chunks@.len() ==> (#[trigger] chunks@[k])@ == all.subrange(k * cs, (k + 1) * cs),
            chunk_views(chunks@).flatten() == all.subrange(0, start),
        ensures
            1 <= chunks@.len(),
            (chunks@.len() - 1) * cs < len <= chunks@.len() * cs,
            forall|k: int|
                0 <= k < chunks@.len() ==> (#[trigger] chunks@[k])@ == all.subrange(
                    k * cs,
                    if (k + 1) * cs < len { (k + 1) * cs } else { len },
                ),
            chunk_views(chunks@).flatten() == all,
        decreases rest@.len(),
    {
        let ghost before = chunks@;
        if rest.len() > cs {
            let tail = rest.split_off(cs);
            proof {
                chunk_views(before).lemma_flatten_push(rest@);
                assert(chunk_views(before.push(rest)) =~= chunk_views(before).push(rest@));
                assert(all.subrange(0, start) + all.subrange(start, start + cs) =~= all.subrange(0, start + cs));
                assert((before.len() + 1) * cs == before.len() * cs + cs) by (nonlinear_arith);
            }
            chunks.push(rest);
            rest = tail;
            proof {
                assert forall|k: int| 0 <= k < chunks@.len() implies (#[trigger] chunks@[k])@ == all.subrange(
                    k * cs,
                    if (k + 1) * cs < len { (k + 1) * cs } else { len },
                ) by {
                    if k < before.len() {
                        assert((k + 1) * cs <= before.len() * cs) by (nonlinear_arith)
                            requires k < before.len(), cs >= 1;
                    }
                }
                start = start + cs;
            }
        } else {
            proof {
                chunk_views(before).lemma_flatten_push(rest@);
                assert(chunk_views(before.push(rest)) =~= chunk_views(before).push(rest@));
                assert(all.subrange(0, start) + all.subrange(start, len) =~= all);
                assert((before.len() + 1) * cs == before.len() * cs + cs) by (nonlinear_arith);
            }
            chunks.push(rest);
            proof {
                assert forall|k: int| 0 <= k < chunks@.len() implies (#[trigger] chunks@[k])@ == all.subrange(
                    k * cs,
                    if (k + 1) * cs < len { (k + 1) * cs } else { len },
                ) by {
                    if k < before.len() {
                        assert((k + 1) * cs <= before.len() * cs) by (nonlinear_arith)
                            requires k < before.len(), cs >= 1;
                    }
                }
            }
            break;
        }
    }
    proof {
        lemma_chunk_count(chunks@.len() as int, cs as int, thread_count as int, len);
    }
    chunks
}

/// The images directory and the labels directory of the split `datatype` in a
/// dataset rooted at `base`.
pub open spec fn split_dirs(base: Seq<char>, datatype: DataType) -> (Seq<char>, Seq<char>) {
    match datatype {
        DataType::TRAIN => (images_train_dir(base), labels_train_dir(base)),
        DataType::VAL => (images_val_dir(base), labels_val_dir(base)),
        DataType::TEST => (images_test_dir(base), labels_test_dir(base)),
    }
}

/// The images directory and the labels directory of the split `datatype`.
pub fn output_dirs_for<C: DatasetConfig>(config: &C, datatype: DataType) -> (dirs: (String, String))
    ensures
        (dirs.0@, dirs.1@) == split_dirs(config.base_dir_view(), datatype),
{
    if datatype == DataType::TRAIN {
        (config.get_images_train_dir_path(), config.get_labels_train_dir_path())
    } else if datatype == DataType::VAL {
        (config.get_images_val_dir_path(), config.get_labels_val_dir_path())
    } else {
        (config.get_images_test_dir_path(), config.get_labels_test_dir_path())
    }
}

/// Images and labels of every split are written into directories that the directory
/// structure generator creates.
pub proof fn lemma_output_dirs_are_created(base: Seq<char>, datatype: DataType)
    ensures
        structure_directories(base).contains(split_dirs(base, datatype).0),
        structure_directories(base).contains(split_dirs(base, datatype).1),
{
    let ds = structure_directories(base);
    match datatype {
        DataType::TRAIN => {
            assert(ds[3] == split_dirs(base, datatype).0);
            assert(ds[6] == split_dirs(base, datatype).1);
        },
        DataType::VAL => {
            assert(ds[4] == split_dirs(base, datatype).0);
            assert(ds[7] == split_dirs(base, datatype).1);
        },
        DataType::TEST => {
            assert(ds[5] == split_dirs(base, datatype).0);
            assert(ds[8] == split_dirs(base, datatype).1);
        },
    }
}

/// The name of the directory of the split `datatype`, under `images` and `labels`.
pub open spec fn split_name(datatype: DataType) -> Seq<char> {
    match datatype {
        DataType::TRAIN => "train"@,
        DataType::VAL => "val"@,
        DataType::TEST => "test"@,
    }
}

/// Each label file pairs with its image by name: the image `name` of the split `S`
/// is `images/S/name.png` and its label file is `labels/S/name.txt`.
pub proof fn lemma_label_pairs_with_image(base: Seq<char>, datatype: DataType, name: Seq<char>)
    ensures
        image_file_path(split_dirs(base, datatype).0, name) == base + "/images/"@ + split_name(datatype) + "/"@
            + name + ".png"@,
        label_file_path(split_dirs(base, datatype).1, name) == base + "/labels/"@ + split_name(datatype) + "/"@
            + name + ".txt"@,
{
    reveal_strlit("/images/");
    reveal_strlit("/labels/");
    reveal_strlit("train");
    reveal_strlit("val");
    reveal_strlit("test");
    reveal_strlit("/images/train");
    reveal_strlit("/images/val");
    reveal_strlit("/images/test");
    reveal_strlit("/labels/train");
    reveal_strlit("/labels/val");
    reveal_strlit("/labels/test");
    let (images, labels) = split_dirs(base, datatype);
    assert(images =~= base + "/images/"@ + split_name(datatype));
    assert(labels =~= base + "/labels/"@ + split_name(datatype));
}

} // verus!
