//! Bundled default configuration: the colorls color themes, icon glyphs
//! and alias tables, as YAML text.

use vstd::prelude::*;

verus! {

/// `dark_colors.yaml`: the dark color theme.
pub const DARK_DEFAULT: &'static str = "# Main colors\n\
unrecognized_file: gold\n\
recognized_file:   yellow\n\
executable_file:   red\n\
dir:               dodgerblue\n\
\n\
# Links\n\
dead_link: red\n\
link:      cyan\n\
\n\
# Special files\n\
socket:   green\n\
blockdev: green\n\
chardev:  green\n\
\n\
# Access modes\n\
write:     darkkhaki\n\
read:      forestgreen\n\
exec:      indianred\n\
no_access: gray\n\
\n\
# Age\n\
day_old:     mediumspringgreen\n\
hour_old:    lime\n\
no_modifier: forestgreen\n\
\n\
# File size\n\
file_large:  darkorange\n\
file_medium: gold\n\
file_small:  yellowgreen\n\
\n\
# Random\n\
report: white\n\
user:   royalblue\n\
tree:   cyan\n\
empty:  yellow\n\
error:  red\n\
normal: darkkhaki\n\
inode:  gray\n\
\n\
# Git\n\
addition:     chartreuse\n\
modification: darkkhaki\n\
deletion:     darkred\n\
untracked:    darkorange\n\
unchanged:    forestgreen\n\
";

/// `light_colors.yaml`: the light color theme.
pub const LIGHT_DEFAULT: &'static str = "# Main colors\n\
unrecognized_file: darkorange\n\
recognized_file:   darkgreen\n\
executable_file:   red\n\
dir:               navyblue\n\
\n\
# Links\n\
dead_link: red\n\
link:      darkcyan\n\
\n\
# Special files\n\
socket:   darkgray\n\
blockdev: darkgray\n\
chardev:  darkgray\n\
\n\
# Access modes\n\
write:     darkred\n\
read:      forestgreen\n\
exec:      brown\n\
no_access: black\n\
\n\
# Age\n\
day_old:     darkslategray\n\
hour_old:    darkgreen\n\
no_modifier: black\n\
\n\
# File size\n\
file_large:  red\n\
file_medium: orangered\n\
file_small:  black\n\
\n\
# Random\n\
report: darkslategray\n\
user:   navyblue\n\
tree:   darkcyan\n\
empty:  red\n\
error:  red\n\
normal: darkslategray\n\
inode:  darkslategray\n\
\n\
# Git\n\
addition:     chartreuse\n\
modification: darkkhaki\n\
deletion:     darkred\n\
untracked:    darkorange\n\
unchanged:    forestgreen\n\
";

/// `files.yaml`: file-type key to nerd-font glyph.
pub const FILES_DEFAULT: &'static str = "ai: \"\\ue7b4\"\n\
android: \"\\ue70e\"\n\
apple: \"\\uf179\"\n\
audio: \"\\uf001\"\n\
avro: \"\\ue60b\"\n\
c: \"\\ue61e\"\n\
clj: \"\\ue768\"\n\
coffee: \"\\uf0f4\"\n\
conf: \"\\ue615\"\n\
cpp: \"\\ue61d\"\n\
css: \"\\ue749\"\n\
d: \"\\ue7af\"\n\
dart: \"\\ue798\"\n\
db: \"\\uf1c0\"\n\
diff: \"\\uf440\"\n\
doc: \"\\uf1c2\"\n\
docker: \"\\uf308\"\n\
ebook: \"\\ue28b\"\n\
editorconfig: \"\\ue615\"\n\
env: \"\\uf462\"\n\
eps: \"\\uf1c5\"\n\
erb: \"\\ue73b\"\n\
erl: \"\\ue7b1\"\n\
ex: \"\\ue62d\"\n\
file: \"\\uf15b\"\n\
font: \"\\uf031\"\n\
git: \"\\uf1d3\"\n\
go: \"\\ue626\"\n\
gradle: \"\\ue70e\"\n\
h: \"\\uf0fd\"\n\
hs: \"\\ue777\"\n\
html: \"\\uf13b\"\n\
image: \"\\uf1c5\"\n\
iml: \"\\ue7b5\"\n\
java: \"\\ue204\"\n\
js: \"\\ue74e\"\n\
json: \"\\ue60b\"\n\
jsx: \"\\ue7ba\"\n\
less: \"\\ue758\"\n\
lock: \"\\uf023\"\n\
log: \"\\uf18d\"\n\
lua: \"\\ue620\"\n\
md: \"\\uf48a\"\n\
mustache: \"\\ue60f\"\n\
npmignore: \"\\ue71e\"\n\
pdf: \"\\uf1c1\"\n\
php: \"\\ue73d\"\n\
pl: \"\\ue769\"\n\
ppt: \"\\uf1c4\"\n\
psd: \"\\ue7b8\"\n\
py: \"\\ue606\"\n\
r: \"\\uf25d\"\n\
rb: \"\\ue21e\"\n\
rdb: \"\\ue76d\"\n\
rs: \"\\ue7a8\"\n\
rss: \"\\uf09e\"\n\
rubydoc: \"\\ue73b\"\n\
sass: \"\\ue603\"\n\
scala: \"\\ue737\"\n\
shell: \"\\uf489\"\n\
sqlite3: \"\\ue7c4\"\n\
styl: \"\\ue600\"\n\
swift: \"\\ue755\"\n\
tex: \"\\ue600\"\n\
toml: \"\\ue615\"\n\
ts: \"\\ue628\"\n\
twig: \"\\ue61c\"\n\
txt: \"\\uf15c\"\n\
video: \"\\uf03d\"\n\
vim: \"\\ue62b\"\n\
windows: \"\\uf17a\"\n\
xls: \"\\uf1c3\"\n\
xml: \"\\ue619\"\n\
yml: \"\\uf481\"\n\
zip: \"\\uf410\"\n\
";

/// `folders.yaml`: folder name to nerd-font glyph.
pub const FOLDERS_DEFAULT: &'static str = ".atom: \"\\ue764\"\n\
.git: \"\\ue5fb\"\n\
.github: \"\\ue5fd\"\n\
.rvm: \"\\ue21e\"\n\
.Trash: \"\\uf1f8\"\n\
.vscode: \"\\ue70c\"\n\
config: \"\\ue5fc\"\n\
folder: \"\\uf115\"\n\
hidden: \"\\uf023\"\n\
lib: \"\\uf121\"\n\
node_modules: \"\\ue5fa\"\n\
";

/// `file_aliases.yaml`: extension to canonical file-type key.
pub const FILE_ALIASES_DEFAULT: &'static str = "apk: android\n\
bash: shell\n\
bat: windows\n\
bmp: image\n\
\"c++\": cpp\n\
cc: cpp\n\
cfg: conf\n\
cjs: js\n\
csh: shell\n\
csv: xls\n\
docx: doc\n\
dockerfile: docker\n\
epub: ebook\n\
exe: windows\n\
exs: ex\n\
fish: shell\n\
flac: audio\n\
gemfile: rb\n\
gif: image\n\
gitignore: git\n\
gz: zip\n\
hpp: h\n\
htm: html\n\
ico: image\n\
ini: conf\n\
jpeg: image\n\
jpg: image\n\
ksh: shell\n\
lhs: hs\n\
m4a: audio\n\
markdown: md\n\
mjs: js\n\
mkv: video\n\
mov: video\n\
mp3: audio\n\
mp4: video\n\
ogg: audio\n\
png: image\n\
pptx: ppt\n\
rakefile: rb\n\
sh: shell\n\
sql: db\n\
sqlite: sqlite3\n\
svg: image\n\
tar: zip\n\
tgz: zip\n\
tiff: image\n\
tsx: jsx\n\
ttf: font\n\
wav: audio\n\
webm: video\n\
webp: image\n\
woff: font\n\
xlsx: xls\n\
xz: zip\n\
yaml: yml\n\
zsh: shell\n\
";

/// `folder_aliases.yaml`: folder name to canonical folder key.
pub const FOLDER_ALIASES_DEFAULT: &'static str = ".config: config\n\
bin: config\n\
include: config\n\
src: lib\n\
vendor: node_modules\n\
";

} // verus!
